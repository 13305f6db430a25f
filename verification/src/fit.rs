//! What fits in a number of columns.
use crate::tline;
use crate::tline::{TLine, TStringModel};
use vstd::prelude::*;

verus! {

/// The number of columns `termimad::StrFit::count_fitting` counts for a string
/// made of this only character, when as many columns as needed are available.
pub uninterp spec fn char_cols(c: char) -> usize;

/// `termimad::StrFit::count_fitting`, called on a string made of this only
/// character and with no limit on the number of columns: the second value it
/// returns, which is the width of the character on screen.
#[verifier::external_body]
pub(crate) fn measure(c: char) -> (cols: usize)
    ensures
        cols == char_cols(c),
{
    let mut buffer = [0u8;4];
    termimad::StrFit::count_fitting(c.encode_utf8(&mut buffer), usize::MAX).1
}

/// The widths of the characters of a line.
pub open spec fn line_cols(content: Seq<TStringModel>) -> Seq<usize> {
    tline::combined(content).map_values(|c: char| char_cols(c))
}

/// The width of the characters `start..end`.
pub open spec fn total(cols: Seq<usize>, start: int, end: int) -> int
    decreases end - start,
{
    if end <= start {
        0
    } else {
        total(cols, start, end - 1) + cols[end - 1]
    }
}

/// Where the characters stop which already go up to `end` and take `used`
/// columns: they go on as long as there's room for them.
pub open spec fn fit_end(cols: Seq<usize>, end: int, used: int, avail: int) -> int
    decreases cols.len() - end,
{
    if 0 <= end < cols.len() && used + cols[end] <= avail {
        fit_end(cols, end + 1, used + cols[end], avail)
    } else {
        end
    }
}

/// The characters which fit are among the characters, after those which are
/// already there.
pub proof fn lemma_fit_end(cols: Seq<usize>, end: int, used: int, avail: int)
    requires
        0 <= end <= cols.len(),
    ensures
        end <= fit_end(cols, end, used, avail) <= cols.len(),
    decreases cols.len() - end,
{
    if end < cols.len() && used + cols[end] <= avail {
        lemma_fit_end(cols, end + 1, used + cols[end], avail);
    }
}

/// The number of characters of a line which fit in the available columns.
pub open spec fn fitting_chars(content: Seq<TStringModel>, avail: int) -> int {
    fit_end(line_cols(content), 0, 0, avail)
}

/// The columns taken by the characters of a line which fit in the available
/// ones.
pub open spec fn fitting_cols(content: Seq<TStringModel>, avail: int) -> int {
    total(line_cols(content), 0, fitting_chars(content, avail))
}

/// Counts how many of the first characters, which have these widths, fit in
/// the available columns, and the columns they take.
pub fn count_fitting(cols: &Vec<usize>, avail: usize) -> (r: (usize, usize))
    ensures
        r.0 == fit_end(cols@, 0, 0, avail as int),
        r.1 == total(cols@, 0, r.0 as int),
        r.1 <= avail,
{
    let mut used: usize = 0;
    let mut end: usize = 0;
    while end < cols.len() && cols[end] <= avail && used <= avail - cols[end]
        invariant
            end <= cols.len(),
            used <= avail,
            used == total(cols@, 0, end as int),
            fit_end(cols@, end as int, used as int, avail as int) == fit_end(
                cols@,
                0,
                0,
                avail as int,
            ),
        decreases cols.len() - end,
    {
        used = used + cols[end];
        end = end + 1;
    }
    (end, used)
}

/// Measures the characters of a line.
pub(crate) fn measure_line(line: &TLine) -> (cols: Vec<usize>)
    ensures
        cols@ == line_cols(line@),
{
    let chars = line.chars();
    let mut cols: Vec<usize> = Vec::new();
    for i in 0..chars.len()
        invariant
            chars@ == tline::combined(line@),
            cols.len() == i,
            forall|j: int| 0 <= j < i ==> #[trigger] cols[j] == char_cols(chars[j]),
    {
        cols.push(measure(chars[i]));
    }
    assert(cols@ =~= line_cols(line@));
    cols
}

impl TLine {
    /// Counts how many of the first characters of the line fit in the
    /// available columns, and the columns they take.
    pub fn fitting(&self, avail: usize) -> (r: (usize, usize))
        ensures
            r.0 == fitting_chars(self@, avail as int),
            r.1 == fitting_cols(self@, avail as int),
            r.1 <= avail,
    {
        count_fitting(&measure_line(self), avail)
    }
}

} // verus!
