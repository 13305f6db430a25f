//! What's done can be undone.
use crate::model::StateModel;
use vstd::prelude::*;

verus! {

/// Switching the raw output twice changes nothing.
pub proof fn raw_output_twice<'s>(state: StateModel<'s>)
    ensures
        state.raw_output_toggled().raw_output_toggled() == state,
{
}

/// Switching the help opens it when it's closed and closes it when it's open.
/// Opening it then closing it, be it with the same switch or by closing it,
/// changes nothing.
pub proof fn help_opened_then_closed<'s>(state: StateModel<'s>)
    ensures
        state.help_toggled().help_page is Some <==> state.help_page is None,
        state.help_page is None ==> state.help_toggled().help_toggled() == state,
        state.help_page is None ==> state.help_toggled().help_closed() == state,
        state.help_closed().help_page is None,
        state.help_closed().help_closed() == state.help_closed(),
{
}

/// Asking twice for the same backtraces is as asking for none, and asking
/// once is as having them unless they were already there.
pub proof fn backtrace_twice<'s>(state: StateModel<'s>, level: Seq<char>)
    ensures
        state.backtrace is None ==> state.backtrace_toggled(level).backtrace_toggled(level)
            == state,
        state.backtrace == Some(level) ==> state.backtrace_toggled(level).backtrace_toggled(level)
            == state,
        state.backtrace != Some(level) ==> state.backtrace_toggled(level).backtrace == Some(level),
        state.backtrace == Some(level) ==> state.backtrace_toggled(level).backtrace is None,
{
}

/// Asking for other backtraces replaces those which were asked for.
pub proof fn backtrace_replaced<'s>(state: StateModel<'s>, first: Seq<char>, second: Seq<char>)
    requires
        first != second,
    ensures
        state.backtrace_toggled(first).backtrace_toggled(second).backtrace == Some(second),
{
}

/// Switching the summary twice brings back the same lines, at the item which
/// was on top on last draw.
pub proof fn summary_twice<'s>(state: StateModel<'s>)
    ensures
        state.summary_toggled().summary_toggled() == state.scrolled_to_last_top_item(),
{
}

/// Switching the wrapping twice brings back the same rows and, if the report
/// is wrapped, the item which was on top on last draw.
pub proof fn wrap_twice<'s>(state: StateModel<'s>)
    ensures
        state.wrapped_report is None ==> state.wrap_toggled().wrap_toggled() == state,
        state.wrapped_report is Some ==> state.wrap_toggled().wrap_toggled()
            == state.scrolled_to_last_top_item(),
{
}

/// Starting a search twice is the same as starting it once: what was searched
/// isn't lost. Leaving it forgets everything about it.
pub proof fn search_started_twice<'s>(state: StateModel<'s>)
    ensures
        state.search_started().search is Some,
        state.search_started().search_started() == state.search_started(),
        state.search is Some ==> state.search_started() == state,
        state.search_exited().search is None,
        state.search is None ==> state.search_started().search_exited() == state,
{
}

} // verus!
