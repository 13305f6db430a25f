//! What holds whatever happens, and in whatever order.
use crate::laws::wrapping;
use crate::model::StateModel;
use crate::report::{ReportModel, ResultModel};
use crate::scroll::ScrollCommand;
use crate::tline::TStringModel;
use vstd::prelude::*;

verus! {

/// Something which happens to the job.
pub ghost enum JobStep {
    LineAdded(Seq<TStringModel>),
    OutputTaken,
    ResultSet(ResultModel),
    Cleared,
    Started,
    Stopped,
    ChangeSeen,
}

/// Something which happens to the screen.
pub ghost enum ScreenStep {
    Resized(u16, u16),
    WrapUpdated(u16),
    TopItemSet(usize),
    ReportDrawn(ReportModel, int, Option<usize>),
    ContentDrawn,
    Drawn,
}

/// A choice of what's displayed.
pub ghost enum ChoiceStep {
    RawOutputToggled,
    SummaryToggled,
    WrapToggled,
    BacktraceToggled(Seq<char>),
    HelpToggled,
    HelpClosed,
}

/// Something done in the search.
pub ghost enum SearchStep {
    SearchStarted,
    SearchExited,
    SearchUpdated(char),
    SearchBackspaced,
    SearchPerformed,
    SearchAdvanced,
}

/// A move in the content.
pub ghost enum ScrollStep {
    Scrolled(ScrollCommand),
    ScrolledToTop,
    ScrolledToBottom,
    ScrollReset,
    ScrollFixed,
    ScrolledToLastTopItem,
}

/// Something which happens to the state.
pub ghost enum Step {
    Job(JobStep),
    Screen(ScreenStep),
    Choice(ChoiceStep),
    Search(SearchStep),
    Scroll(ScrollStep),
}

impl JobStep {
    /// The state after this step.
    #[verifier::opaque]
    pub open spec fn applied<'s>(self, state: StateModel<'s>) -> StateModel<'s> {
        match self {
            JobStep::LineAdded(line) => state.with_line(line),
            JobStep::OutputTaken => state.output_taken(),
            JobStep::ResultSet(result) => state.with_result(result),
            JobStep::Cleared => state.cleared(),
            JobStep::Started => state.started(),
            JobStep::Stopped => state.stopped(),
            JobStep::ChangeSeen => state.changed(),
        }
    }
}

impl ScreenStep {
    /// The state after this step.
    #[verifier::opaque]
    pub open spec fn applied<'s>(self, state: StateModel<'s>) -> StateModel<'s> {
        match self {
            ScreenStep::Resized(width, height) => state.resized(width, height),
            ScreenStep::WrapUpdated(width) => state.wrap_updated(width),
            ScreenStep::TopItemSet(top_item_idx) => state.with_top_item(top_item_idx),
            ScreenStep::ReportDrawn(report, height, top) => state.report_drawn(
                report,
                height,
                top,
            ),
            ScreenStep::ContentDrawn => state.content_drawn(),
            ScreenStep::Drawn => state.drawn(),
        }
    }
}

impl ChoiceStep {
    /// The state after this step.
    #[verifier::opaque]
    pub open spec fn applied<'s>(self, state: StateModel<'s>) -> StateModel<'s> {
        match self {
            ChoiceStep::RawOutputToggled => state.raw_output_toggled(),
            ChoiceStep::SummaryToggled => state.summary_toggled(),
            ChoiceStep::WrapToggled => state.wrap_toggled(),
            ChoiceStep::BacktraceToggled(level) => state.backtrace_toggled(level),
            ChoiceStep::HelpToggled => state.help_toggled(),
            ChoiceStep::HelpClosed => state.help_closed(),
        }
    }
}

impl SearchStep {
    /// The state after this step.
    #[verifier::opaque]
    pub open spec fn applied<'s>(self, state: StateModel<'s>) -> StateModel<'s> {
        match self {
            SearchStep::SearchStarted => state.search_started(),
            SearchStep::SearchExited => state.search_exited(),
            SearchStep::SearchUpdated(c) => state.search_updated(c),
            SearchStep::SearchBackspaced => state.search_backspaced(),
            SearchStep::SearchPerformed => state.search_performed(),
            SearchStep::SearchAdvanced => state.search_advanced(),
        }
    }
}

impl ScrollStep {
    /// The state after this step.
    #[verifier::opaque]
    pub open spec fn applied<'s>(self, state: StateModel<'s>) -> StateModel<'s> {
        match self {
            ScrollStep::Scrolled(cmd) => state.scrolled(cmd),
            ScrollStep::ScrolledToTop => state.scrolled_to_top(),
            ScrollStep::ScrolledToBottom => state.scrolled_to_bottom(),
            ScrollStep::ScrollReset => state.scroll_reset(),
            ScrollStep::ScrollFixed => state.scroll_fixed(),
            ScrollStep::ScrolledToLastTopItem => state.scrolled_to_last_top_item(),
        }
    }
}

/// The state after a step.
pub open spec fn after<'s>(state: StateModel<'s>, step: Step) -> StateModel<'s> {
    match step {
        Step::Job(step) => step.applied(state),
        Step::Screen(step) => step.applied(state),
        Step::Choice(step) => step.applied(state),
        Step::Search(step) => step.applied(state),
        Step::Scroll(step) => step.applied(state),
    }
}

/// The state after steps, one after the other.
pub open spec fn after_all<'s>(state: StateModel<'s>, steps: Seq<Step>) -> StateModel<'s>
    decreases steps.len(),
{
    if steps.len() == 0 {
        state
    } else {
        after(after_all(state, steps.drop_last()), steps.last())
    }
}

/// The number of changes seen among steps.
pub open spec fn changes_in(steps: Seq<Step>) -> int
    decreases steps.len(),
{
    if steps.len() == 0 {
        0
    } else if steps.last() == Step::Job(JobStep::ChangeSeen) {
        changes_in(steps.drop_last()) + 1
    } else {
        changes_in(steps.drop_last())
    }
}

/// Whether nothing differs about what's wrapped, what it's made from, and the
/// width it's wrapped for, nor about the count of changes.
pub open spec fn same_base<'s>(a: StateModel<'s>, b: StateModel<'s>) -> bool {
    &&& a.output == b.output
    &&& a.wrapped_output == b.wrapped_output
    &&& a.result == b.result
    &&& a.wrapped_report == b.wrapped_report
    &&& a.width == b.width
    &&& a.changes == b.changes
}

/// Moves in the content only change how it's read.
pub proof fn scrolling_keeps_the_base<'s>(state: StateModel<'s>, step: ScrollStep)
    ensures
        same_base(state, step.applied(state)),
{
    reveal(ScrollStep::applied);
}

/// Searching only changes the search and how the content is read.
pub proof fn searching_keeps_the_base<'s>(state: StateModel<'s>, step: SearchStep)
    ensures
        same_base(state, step.applied(state)),
{
    reveal(SearchStep::applied);
}

/// Choosing what's displayed doesn't change what can be displayed.
pub proof fn choosing_keeps_the_base<'s>(state: StateModel<'s>, step: ChoiceStep)
    ensures
        same_base(state, step.applied(state)),
{
    reveal(ChoiceStep::applied);
}

/// Drawing doesn't change what's drawn.
pub proof fn drawing_keeps_the_base<'s>(state: StateModel<'s>, step: ScreenStep)
    requires
        !(step is Resized),
        !(step is WrapUpdated),
    ensures
        same_base(state, step.applied(state)),
{
    reveal(ScreenStep::applied);
}

/// Nothing but a change and the start of a job modifies the count of changes.
/// A change adds one to it and modifies nothing else.
pub proof fn only_changes_are_counted<'s>(state: StateModel<'s>, step: Step)
    ensures
        step != Step::Job(JobStep::Started) && step != Step::Job(JobStep::ChangeSeen) ==> after(
            state,
            step,
        ).changes == state.changes,
        after(state, Step::Job(JobStep::ChangeSeen)) == (StateModel {
            changes: state.changes + 1,
            ..state
        }),
        after(state, Step::Job(JobStep::Started)).changes == 0,
{
    reveal(JobStep::applied);
    match step {
        Step::Job(JobStep::LineAdded(line)) => if let Some(output) = state.output {
            let longer = StateModel { output: Some(output.push(line)), ..state };
            wrapping::wrapping_keeps_the_rest(longer, (longer.width - 1) as u16);
        },
        Step::Job(JobStep::ResultSet(result)) => {
            let unwrapped = state.with_unwrapped_result(result);
            wrapping::wrapping_keeps_the_rest(unwrapped, (unwrapped.width - 1) as u16);
        },
        Step::Job(_) => {},
        Step::Screen(ScreenStep::Resized(width, height)) => {
            reveal(ScreenStep::applied);
            wrapping::wrapping_keeps_the_rest(state.with_size(width, height), (width - 1) as u16);
        },
        Step::Screen(ScreenStep::WrapUpdated(width)) => {
            reveal(ScreenStep::applied);
            wrapping::wrapping_keeps_the_rest(state, width);
        },
        Step::Screen(step) => drawing_keeps_the_base(state, step),
        Step::Choice(step) => choosing_keeps_the_base(state, step),
        Step::Search(step) => searching_keeps_the_base(state, step),
        Step::Scroll(step) => scrolling_keeps_the_base(state, step),
    }
}

/// The changes are counted from the start of the job, whatever else happens
/// meanwhile.
pub proof fn changes_are_counted<'s>(state: StateModel<'s>, steps: Seq<Step>)
    requires
        forall|i: int| 0 <= i < steps.len() ==> #[trigger] steps[i] != Step::Job(JobStep::Started),
    ensures
        after_all(state.started(), steps).changes == changes_in(steps),
    decreases steps.len(),
{
    if steps.len() > 0 {
        let before = steps.drop_last();
        assert forall|i: int| 0 <= i < before.len() implies #[trigger] before[i] != Step::Job(
            JobStep::Started,
        ) by {
            assert(before[i] == steps[i]);
        }
        changes_are_counted(state, before);
        only_changes_are_counted(after_all(state.started(), before), steps.last());
        assert(steps[steps.len() - 1] != Step::Job(JobStep::Started));
    }
}

proof fn lemma_same_base_fits<'s>(a: StateModel<'s>, b: StateModel<'s>)
    requires
        same_base(a, b),
        wrapping::fits_screen(a),
    ensures
        wrapping::fits_screen(b),
{
}

proof fn lemma_job_fits<'s>(state: StateModel<'s>, step: JobStep)
    requires
        wrapping::fits_screen(state),
    ensures
        wrapping::fits_screen(step.applied(state)),
{
    reveal(JobStep::applied);
    match step {
        JobStep::LineAdded(line) => wrapping::added_lines_fit_screen(state, line),
        JobStep::ResultSet(result) => wrapping::result_fits_screen(state, result),
        JobStep::Stopped => lemma_same_base_fits(state, state.stopped()),
        JobStep::ChangeSeen => {},
        _ => wrapping::cleared_fits_screen(state),
    }
}

proof fn lemma_step_fits<'s>(state: StateModel<'s>, step: Step)
    requires
        wrapping::fits_screen(state),
        !(step matches Step::Screen(step) && step is WrapUpdated),
    ensures
        wrapping::fits_screen(after(state, step)),
{
    match step {
        Step::Job(step) => lemma_job_fits(state, step),
        Step::Screen(ScreenStep::Resized(width, height)) => {
            reveal(ScreenStep::applied);
            wrapping::resized_fits_screen(state, width, height);
        },
        Step::Screen(step) => {
            drawing_keeps_the_base(state, step);
            lemma_same_base_fits(state, step.applied(state));
        },
        Step::Choice(step) => {
            choosing_keeps_the_base(state, step);
            lemma_same_base_fits(state, step.applied(state));
        },
        Step::Search(step) => {
            searching_keeps_the_base(state, step);
            lemma_same_base_fits(state, step.applied(state));
        },
        Step::Scroll(step) => {
            scrolling_keeps_the_base(state, step);
            lemma_same_base_fits(state, step.applied(state));
        },
    }
}

/// What's wrapped always fits the screen, whatever happens but a wrapping
/// asked for another width.
pub proof fn wrapped_always_fits_screen<'s>(state: StateModel<'s>, steps: Seq<Step>)
    requires
        wrapping::fits_screen(state),
        forall|i: int|
            0 <= i < steps.len() ==> !(#[trigger] steps[i] matches Step::Screen(step)
                && step is WrapUpdated),
    ensures
        wrapping::fits_screen(after_all(state, steps)),
    decreases steps.len(),
{
    if steps.len() > 0 {
        let before = steps.drop_last();
        assert forall|i: int| 0 <= i < before.len() implies !(
        #[trigger] before[i] matches Step::Screen(step) && step is WrapUpdated) by {
            assert(before[i] == steps[i]);
        }
        wrapped_always_fits_screen(state, before);
        assert(steps[steps.len() - 1] == steps.last());
        lemma_step_fits(after_all(state, before), steps.last());
    }
}

} // verus!
