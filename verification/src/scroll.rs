//! Scrolling: the position in the content, and the scrollbar telling it.
use vstd::prelude::*;

verus! {

/// A rectangular part of the screen.
#[derive(Clone, Copy)]
pub struct Area {
    pub left: u16,
    pub top: u16,
    pub width: u16,
    pub height: u16,
}

/// The greatest scroll of a content: the one which puts its last line at the
/// bottom of the page.
pub open spec fn max_scroll(content_height: int, page_height: int) -> int {
    if content_height > page_height {
        content_height - page_height
    } else {
        0
    }
}

/// The scroll brought back between the top and the bottom of the content.
pub open spec fn fixed_scroll(scroll: int, content_height: int, page_height: int) -> int {
    let max = max_scroll(content_height, page_height);
    if scroll < 0 {
        0
    } else if scroll > max {
        max
    } else {
        scroll
    }
}

/// Brings the scroll back between the top and the bottom of the content.
pub fn fix_scroll(scroll: usize, content_height: usize, page_height: usize) -> (r: usize)
    ensures
        r == fixed_scroll(scroll as int, content_height as int, page_height as int),
{
    if content_height <= page_height {
        0
    } else if scroll > content_height - page_height {
        content_height - page_height
    } else {
        scroll
    }
}

/// A request to move in the content.
#[derive(Clone, Copy)]
pub enum ScrollCommand {
    Top,
    Bottom,
    Lines(i32),
    Pages(i32),
}

impl ScrollCommand {
    /// The scroll the command asks for, be there a content at this position
    /// or not.
    pub open spec fn target(self, scroll: int, content_height: int, page_height: int) -> int {
        match self {
            ScrollCommand::Top => 0,
            ScrollCommand::Bottom => content_height,
            ScrollCommand::Lines(n) => scroll + n,
            ScrollCommand::Pages(n) => scroll + n * page_height,
        }
    }

    /// Computes the new scroll.
    pub fn apply(self, scroll: usize, content_height: usize, page_height: usize) -> (r: usize)
        ensures
            r == fixed_scroll(
                self.target(scroll as int, content_height as int, page_height as int),
                content_height as int,
                page_height as int,
            ),
    {
        let target: i128 = match self {
            ScrollCommand::Top => 0,
            ScrollCommand::Bottom => content_height as i128,
            ScrollCommand::Lines(n) => scroll as i128 + n as i128,
            ScrollCommand::Pages(n) => {
                assert(-0x8000_0000 * 0x1_0000_0000_0000_0000 <= n * page_height <= 0x8000_0000
                    * 0x1_0000_0000_0000_0000) by (nonlinear_arith)
                    requires
                        -0x8000_0000 <= n <= 0x8000_0000,
                        0 <= page_height <= 0x1_0000_0000_0000_0000,
                ;
                scroll as i128 + n as i128 * page_height as i128
            },
        };
        if target <= 0 || content_height <= page_height {
            0
        } else if target > (content_height - page_height) as i128 {
            content_height - page_height
        } else {
            target as usize
        }
    }
}

/// The first and last rows of the thumb of the scrollbar of an area, if the
/// content is higher than the area.
pub open spec fn thumb(top: int, height: int, scroll: int, content_height: int) -> Option<
    (int, int),
> {
    if content_height <= height {
        None
    } else {
        let share = scroll * height / content_height;
        let before = if share == 0 && scroll > 0 {
            1
        } else {
            share
        };
        let first = top + before;
        let last = first + height * height / content_height;
        if scroll + height < content_height && height > 3 && last > top + height - 2 {
            Some(
                (
                    first,
                    if first > top + height - 2 {
                        first
                    } else {
                        top + height - 2
                    },
                ),
            )
        } else {
            Some((first, last))
        }
    }
}

/// Whether the thumb can be computed and lies in the range of screen rows.
pub open spec fn thumb_fits(top: int, height: int, scroll: int, content_height: int) -> bool {
    match thumb(top, height, scroll, content_height) {
        Some((first, last)) => {
            &&& scroll * height <= usize::MAX
            &&& scroll + height <= usize::MAX
            &&& first <= u16::MAX
            &&& last <= u16::MAX
        },
        None => true,
    }
}

/// Tells whether the thumb of the scrollbar of an area can be computed and
/// lies in the range of screen rows.
pub fn is_thumb_placed(area: &Area, scroll: usize, content_height: usize) -> (r: bool)
    ensures
        r == thumb_fits(
            area.top as int,
            area.height as int,
            scroll as int,
            content_height as int,
        ),
{
    let height: usize = area.height as usize;
    if content_height <= height {
        return true;
    }
    if scroll > usize::MAX - height {
        return false;
    }
    assert(scroll * height <= 0x1_0000_0000_0000_0000 * 0x1_0000) by (nonlinear_arith)
        requires
            0 <= scroll <= 0x1_0000_0000_0000_0000,
            0 <= height <= 0x1_0000,
    ;
    let product: u128 = scroll as u128 * height as u128;
    if product > usize::MAX as u128 {
        return false;
    }
    let share: usize = product as usize / content_height;
    let before: usize = if share == 0 && scroll > 0 {
        1
    } else {
        share
    };
    if before > 0xffff {
        return false;
    }
    let top: usize = area.top as usize;
    let first: usize = top + before;
    assert(height * height <= 0xffff * 0xffff) by (nonlinear_arith)
        requires
            0 <= height <= 0xffff,
    ;
    let shown: usize = height * height / content_height;
    assert(shown <= height) by (nonlinear_arith)
        requires
            shown == (height * height) as int / content_height as int,
            0 <= height < content_height,
    ;
    let last: usize = first + shown;
    if scroll + height < content_height && height > 3 && last > top + height - 2 {
        first <= 0xffff && top + height - 2 <= 0xffff
    } else {
        first <= 0xffff && last <= 0xffff
    }
}

/// `termimad::Area::scrollbar`, for the area of that position and size: the
/// rows of the top and of the bottom of the thumb, both inclusive, or `None`
/// when the content fits in the area. The rows are those of [`thumb`]: the
/// part of the track above the thumb is proportional to the scroll, but never
/// empty when there's something hidden above, the thumb is proportional to
/// the part of the content which is shown, and it doesn't touch the bottom of
/// an area of more than 3 rows as long as something is hidden below.
#[verifier::external_body]
pub(crate) fn scrollbar(area: &Area, scroll: usize, content_height: usize) -> (r: Option<
    (u16, u16),
>)
    requires
        thumb_fits(area.top as int, area.height as int, scroll as int, content_height as int),
    ensures
        match (
            r,
            thumb(area.top as int, area.height as int, scroll as int, content_height as int),
        ) {
            (Some((top, bottom)), Some((first, last))) => top == first && bottom == last,
            (None, None) => true,
            _ => false,
        },
{
    termimad::Area::new(area.left, area.top, area.width, area.height).scrollbar(
        scroll,
        content_height,
    )
}

/// Whether row `y` is in the thumb of the scrollbar.
pub open spec fn in_thumb(y: int, scrollbar: Option<(u16, u16)>) -> bool {
    match scrollbar {
        Some((top, bottom)) => top <= y <= bottom,
        None => false,
    }
}

/// Tells whether row `y` is in the thumb of the scrollbar.
pub fn is_thumb(y: usize, scrollbar: Option<(u16, u16)>) -> (r: bool)
    ensures
        r == in_thumb(y as int, scrollbar),
{
    match scrollbar {
        Some((top, bottom)) => top as usize <= y && y <= bottom as usize,
        None => false,
    }
}

} // verus!
