//! The scroll stays where there's something to see.
use crate::model::StateModel;
use crate::scroll;
use crate::scroll::ScrollCommand;
use crate::tline::TStringModel;
use vstd::prelude::*;

verus! {

/// A fixed scroll is in the content, and fixing it again changes nothing. A
/// scroll which is in the content isn't changed.
pub proof fn fixed_scroll_is_in_content(scroll: int, content_height: int, page_height: int)
    requires
        0 <= content_height,
        0 <= page_height,
    ensures
        0 <= scroll::fixed_scroll(scroll, content_height, page_height) <= scroll::max_scroll(
            content_height,
            page_height,
        ),
        scroll::fixed_scroll(
            scroll::fixed_scroll(scroll, content_height, page_height),
            content_height,
            page_height,
        ) == scroll::fixed_scroll(scroll, content_height, page_height),
        0 <= scroll <= scroll::max_scroll(content_height, page_height) ==> scroll::fixed_scroll(
            scroll,
            content_height,
            page_height,
        ) == scroll,
{
}

/// A content which isn't higher than the page isn't scrolled.
pub proof fn short_content_is_not_scrolled(scroll: int, content_height: int, page_height: int)
    requires
        content_height <= page_height,
    ensures
        scroll::fixed_scroll(scroll, content_height, page_height) == 0,
{
}

/// The bottom is the last position in the content: it's seen as such, fixing
/// the scroll doesn't change it, and nothing is hidden below.
pub proof fn bottom_is_last<'s>(state: StateModel<'s>)
    ensures
        state.scrolled_to_bottom().is_scroll_at_bottom(),
        state.scrolled_to_bottom().scroll_fixed() == state.scrolled_to_bottom(),
        state.scrolled_to_bottom().scroll + state.page_height() >= state.content_height(),
{
    assert(state.scrolled_to_bottom().content_height() == state.content_height());
}

/// Whatever the command, the scroll stays in the content.
pub proof fn commands_stay_in_content<'s>(state: StateModel<'s>, cmd: ScrollCommand)
    requires
        state.help_page is None,
    ensures
        0 <= state.scrolled(cmd).scroll <= scroll::max_scroll(
            state.content_height(),
            state.page_height(),
        ),
        state.scrolled(cmd).content_height() == state.content_height(),
        state.scrolled(cmd).scroll_fixed() == state.scrolled(cmd),
{
    assert(state.scrolled(cmd).content_height() == state.content_height());
}

/// Going to the top hides nothing above, and going to the bottom hides
/// nothing below.
pub proof fn top_and_bottom<'s>(state: StateModel<'s>)
    requires
        state.help_page is None,
    ensures
        state.scrolled(ScrollCommand::Top).scroll == 0,
        state.scrolled(ScrollCommand::Bottom) == state.scrolled_to_bottom(),
{
}

/// Moving by some lines then by as many in the other direction comes back to
/// the same place, if the first move wasn't stopped by an end of the content.
pub proof fn lines_and_back<'s>(state: StateModel<'s>, n: i32)
    requires
        state.help_page is None,
        n > i32::MIN,
        0 <= state.scroll <= scroll::max_scroll(state.content_height(), state.page_height()),
        0 <= state.scroll + n <= scroll::max_scroll(state.content_height(), state.page_height()),
    ensures
        state.scrolled(ScrollCommand::Lines(n)).scrolled(ScrollCommand::Lines((-n) as i32))
            == state,
{
    let moved = state.scrolled(ScrollCommand::Lines(n));
    assert(moved.content_height() == state.content_height());
}

/// While the help page is open, it's the one which is scrolled: the content
/// stays where it is.
pub proof fn help_is_scrolled_alone<'s>(state: StateModel<'s>, cmd: ScrollCommand)
    requires
        state.help_page is Some,
    ensures
        state.scrolled(cmd).help_page is Some,
        state.scrolled(cmd).help_closed() == state.help_closed(),
{
}

/// If the bottom is displayed, adding lines keeps it displayed.
pub proof fn bottom_is_followed<'s>(state: StateModel<'s>, line: Seq<TStringModel>)
    requires
        state.output is Some,
        state.is_scroll_at_bottom(),
    ensures
        state.with_line(line).is_scroll_at_bottom(),
{
    let longer = StateModel {
        output: Some(state.output->0.push(line)),
        ..state
    }.wrapped_if_asked();
    bottom_is_last(longer);
}

/// Whether what's displayed has been wrapped.
pub open spec fn is_wrapped<'s>(state: StateModel<'s>) -> bool {
    if state.report_to_draw() is Some {
        state.wrapped_report is Some
    } else {
        state.wrapped_output is Some
    }
}

/// If the user scrolled up, adding lines doesn't move what's displayed, unless
/// it has to be wrapped and wasn't yet.
pub proof fn position_is_kept<'s>(state: StateModel<'s>, line: Seq<TStringModel>)
    requires
        state.output is Some,
        !state.is_scroll_at_bottom(),
        state.wrap ==> is_wrapped(state),
    ensures
        state.with_line(line).scroll == state.scroll,
{
    reveal(StateModel::wrap_updated);
}

/// A new output is read from its top.
pub proof fn new_output_starts_on_top<'s>(state: StateModel<'s>, line: Seq<TStringModel>)
    requires
        state.output is None,
    ensures
        state.with_line(line).scroll == 0,
{
}

/// Once fixed, the scroll is in the content.
pub proof fn fixed_state_is_in_content<'s>(state: StateModel<'s>)
    ensures
        state.scroll_fixed().content_height() == state.content_height(),
        0 <= state.scroll_fixed().scroll <= scroll::max_scroll(
            state.content_height(),
            state.page_height(),
        ),
        state.scroll_fixed().scroll_fixed() == state.scroll_fixed(),
{
    assert(state.scroll_fixed().content_height() == state.content_height());
}

/// After the dimensions of the screen changed, the scroll is in the content.
pub proof fn resized_scroll_is_in_content<'s>(state: StateModel<'s>, width: u16, height: u16)
    ensures
        0 <= state.resized(width, height).scroll <= scroll::max_scroll(
            state.resized(width, height).content_height(),
            state.resized(width, height).page_height(),
        ),
        state.resized(width, height).width == width,
        state.resized(width, height).height == height,
{
    let sized = state.with_size(width, height);
    let wrapped = sized.wrapped_if_asked();
    assert(wrapped.width == width && wrapped.height == height) by {
        crate::laws::wrapping::wrapping_keeps_the_rest(sized, (width - 1) as u16);
    }
    let unfixed = StateModel { scroll: wrapped.last_item_scroll(), ..wrapped };
    fixed_state_is_in_content(unfixed);
    assert(state.resized(width, height) == unfixed.scroll_fixed());
}

} // verus!
