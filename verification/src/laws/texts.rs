//! What texts say can be read in them.
use crate::fit;
use crate::text;
use crate::tline;
use crate::tline::TStringModel;
use vstd::prelude::*;

verus! {

/// Twenty-five characters are white spaces, and no other one is.
pub proof fn white_spaces_are_known(c: char)
    ensures
        text::white_space(c) <==> {
            let n = c as u32;
            ||| n == 9 || n == 10 || n == 11 || n == 12 || n == 13
            ||| c == ' ' || n == 133 || n == 160 || n == 5760
            ||| 8192 <= n && n < 8203
            ||| n == 8232 || n == 8233 || n == 8239 || n == 8287 || n == 12288
        },
{
}

/// A text is blank when all its parts are. An empty text is blank, and a text
/// of one character is when this one is a white space.
pub proof fn blank_has_only_white_spaces(a: Seq<char>, b: Seq<char>, c: char)
    ensures
        text::blank(Seq::empty()),
        text::blank(seq![c]) <==> text::white_space(c),
        text::blank(a + b) <==> text::blank(a) && text::blank(b),
{
    if text::blank(seq![c]) {
        assert(text::white_space(seq![c][0]));
    }
    if text::blank(a + b) {
        assert forall|i: int| 0 <= i < a.len() implies text::white_space(#[trigger] a[i]) by {
            assert(text::white_space((a + b)[i]));
        }
        assert forall|i: int| 0 <= i < b.len() implies text::white_space(#[trigger] b[i]) by {
            assert(text::white_space((a + b)[a.len() + i]));
        }
    }
}

/// A text contains another one when it's made of something, this other one,
/// and something else.
pub proof fn containing_is_having_around(part: Seq<char>, s: Seq<char>)
    ensures
        text::occurs_in(part, s) <==> exists|before: Seq<char>, after: Seq<char>|
            s == #[trigger] (before + part + after),
{
    if text::occurs_in(part, s) {
        let i = choose|i: int| text::stands_at(part, s, i);
        let before = s.take(i);
        let after = s.skip(i + part.len());
        assert(s =~= before + part + after) by {
            assert forall|k: int| 0 <= k < s.len() implies s[k] == (before + part + after)[k] by {
                if i <= k < i + part.len() {
                    assert(s.subrange(i, i + part.len())[k - i] == part[k - i]);
                }
            }
        }
    }
    if exists|before: Seq<char>, after: Seq<char>| s == #[trigger] (before + part + after) {
        let (before, after) = choose|before: Seq<char>, after: Seq<char>|
            s == #[trigger] (before + part + after);
        assert(s.subrange(before.len() as int, (before.len() + part.len()) as int) =~= part);
        assert(text::stands_at(part, s, before.len() as int));
    }
}

/// The number written with these digits.
pub open spec fn value(digits: Seq<char>) -> int
    decreases digits.len(),
{
    if digits.len() == 0 {
        0
    } else {
        value(digits.drop_last()) * 10 + (digits.last() as int - '0' as int)
    }
}

/// A number written in decimal is read back. It has only digits, and no
/// useless zero at the start.
pub proof fn decimal_is_read_back(n: nat)
    ensures
        value(text::decimal(n)) == n,
        text::decimal(n).len() >= 1,
        forall|i: int|
            0 <= i < text::decimal(n).len() ==> '0' <= #[trigger] text::decimal(n)[i] <= '9',
        text::decimal(n)[0] == '0' ==> n == 0 && text::decimal(n).len() == 1,
    decreases n,
{
    let all = text::decimal(n);
    if n < 10 {
        assert(all == seq![text::digit(n)]);
        assert(all.drop_last() =~= Seq::<char>::empty());
        assert(value(all.drop_last()) == 0);
    } else {
        decimal_is_read_back(n / 10);
        let start = text::decimal(n / 10);
        assert(all == start.push(text::digit(n % 10)));
        assert(all.drop_last() =~= start);
        assert(all[0] == start[0]);
    }
}

/// A negative number is written with a minus sign, then as its opposite.
pub proof fn signed_decimal_has_its_sign(n: int)
    ensures
        n >= 0 ==> text::signed_decimal(n) == text::decimal(n as nat),
        n < 0 ==> text::signed_decimal(n).len() > 1 && text::signed_decimal(n)[0] == '-'
            && text::signed_decimal(n).skip(1) == text::decimal((-n) as nat),
{
    if n < 0 {
        decimal_is_read_back((-n) as nat);
        assert(text::signed_decimal(n).skip(1) =~= text::decimal((-n) as nat));
    }
}

/// A centered text takes the whole width, has the same number of spaces on
/// both sides, or one more on the right, and nothing else around it. A text
/// which is too long isn't changed.
pub proof fn centered_is_in_the_middle(s: Seq<char>, width: nat)
    ensures
        s.len() >= width ==> text::centered(s, width) == s,
        s.len() < width ==> {
            let left = (width - s.len()) / 2;
            let r = text::centered(s, width);
            &&& r.len() == width
            &&& r.subrange(left, left + s.len()) == s
            &&& forall|i: int|
                0 <= i < width && !(left <= i < left + s.len()) ==> #[trigger] r[i] == ' '
        },
{
    if s.len() < width {
        let left = (width - s.len()) / 2;
        assert(text::centered(s, width).subrange(left, left + s.len()) =~= s);
    }
}

/// The text of a line is made of those of its strings, in order.
pub proof fn line_text_is_all_its_strings(
    a: Seq<TStringModel>,
    b: Seq<TStringModel>,
    string: TStringModel,
)
    ensures
        tline::combined(Seq::empty()) == Seq::<char>::empty(),
        tline::combined(seq![string]) == string.raw,
        tline::combined(a + b) == tline::combined(a) + tline::combined(b),
    decreases b.len(),
{
    assert(seq![string].drop_last() =~= Seq::<TStringModel>::empty());
    assert(tline::combined(seq![string].drop_last()) =~= Seq::<char>::empty());
    assert(tline::combined(seq![string]) =~= string.raw);
    if b.len() == 0 {
        assert(a + b =~= a);
        assert(tline::combined(b) =~= Seq::<char>::empty());
    } else {
        line_text_is_all_its_strings(a, b.drop_last(), string);
        assert((a + b).drop_last() =~= a + b.drop_last());
    }
    assert(tline::combined(a + b) =~= tline::combined(a) + tline::combined(b));
}

/// A line has what one of its strings contains, be it the first one or
/// another one.
pub proof fn line_has_what_its_strings_have(
    string: TStringModel,
    others: Seq<TStringModel>,
    part: Seq<char>,
)
    ensures
        !tline::one_has(Seq::empty(), part),
        tline::one_has(others.push(string), part) <==> text::occurs_in(part, string.raw)
            || tline::one_has(others, part),
{
    let all = others.push(string);
    if text::occurs_in(part, string.raw) {
        assert(all[others.len() as int] == string);
    }
    if tline::one_has(others, part) {
        let i = choose|i: int|
            0 <= i < others.len() && text::occurs_in(part, (#[trigger] others[i]).raw);
        assert(all[i] == others[i]);
    }
    if tline::one_has(all, part) {
        let i = choose|i: int| 0 <= i < all.len() && text::occurs_in(part, (#[trigger] all[i]).raw);
        if i < others.len() {
            assert(others[i] == all[i]);
        }
    }
}

/// A line is blank when its text is.
pub proof fn blank_line_has_a_blank_text(strings: Seq<TStringModel>)
    ensures
        tline::all_blank(strings) <==> text::blank(tline::combined(strings)),
    decreases strings.len(),
{
    if strings.len() > 0 {
        let fewer = strings.drop_last();
        blank_line_has_a_blank_text(fewer);
        blank_has_only_white_spaces(tline::combined(fewer), strings.last().raw, ' ');
        if tline::all_blank(strings) {
            assert forall|i: int| 0 <= i < fewer.len() implies text::blank(
                (#[trigger] fewer[i]).raw,
            ) by {
                assert(text::blank(strings[i].raw));
            }
            assert(text::blank(strings[strings.len() - 1].raw));
        } else {
            let i = choose|i: int|
                0 <= i < strings.len() && !text::blank((#[trigger] strings[i]).raw);
            if i < fewer.len() {
                assert(!text::blank(fewer[i].raw));
            }
        }
    }
}

/// A badge tells its label in its colors. One which counts things tells their
/// number, then their category, which is in the plural from two things on.
pub proof fn badges_tell_their_label(label: Seq<char>, fg: u8, bg: u8, num: nat)
    ensures
        tline::badge(label, fg, bg) == (TStringModel {
            raw: label,
            fg: Some(fg),
            bg: Some(bg),
        }),
        num <= 1 ==> tline::counted(num, label) == text::decimal(num) + seq![' '] + label,
        num >= 2 ==> tline::counted(num, label) == text::decimal(num) + seq![' '] + label + seq![
            's',
        ],
{
    assert(text::decimal(num).push(' ') =~= text::decimal(num) + seq![' ']);
    let words = text::decimal(num) + seq![' '] + label;
    assert(words.push('s') =~= words + seq!['s']);
}

/// Each character of the text of a line has its width, and the width of
/// characters is the sum of theirs.
pub proof fn widths_are_those_of_the_characters(
    content: Seq<TStringModel>,
    cols: Seq<usize>,
    start: int,
    middle: int,
    end: int,
)
    requires
        0 <= start <= middle <= end <= cols.len(),
    ensures
        fit::line_cols(content).len() == tline::combined(content).len(),
        forall|i: int|
            0 <= i < tline::combined(content).len() ==> #[trigger] fit::line_cols(content)[i]
                == fit::char_cols(tline::combined(content)[i]),
        fit::total(cols, start, start) == 0,
        start < end ==> fit::total(cols, end - 1, end) == cols[end - 1],
        fit::total(cols, start, end) == fit::total(cols, start, middle) + fit::total(
            cols,
            middle,
            end,
        ),
    decreases end - middle,
{
    if start < end {
        assert(fit::total(cols, end - 1, end - 1) == 0);
    }
    if middle < end {
        widths_are_those_of_the_characters(content, cols, start, middle, end - 1);
    }
}

} // verus!
