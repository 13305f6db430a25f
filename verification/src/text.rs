//! Characters, strings and the few text rules the display relies on.
use vstd::prelude::*;

verus! {

/// Whether `c` has the Unicode property `White_Space`.
pub open spec fn white_space(c: char) -> bool {
    let n = c as u32;
    ||| 0x9 <= n <= 0xd
    ||| n == 0x20
    ||| n == 0x85
    ||| n == 0xa0
    ||| n == 0x1680
    ||| 0x2000 <= n <= 0x200a
    ||| n == 0x2028
    ||| n == 0x2029
    ||| n == 0x202f
    ||| n == 0x205f
    ||| n == 0x3000
}

/// Whether `s` holds nothing but white space.
pub open spec fn blank(s: Seq<char>) -> bool {
    forall|i: int| 0 <= i < s.len() ==> white_space(#[trigger] s[i])
}

/// Whether `part` stands in `s` at position `i`.
pub open spec fn stands_at(part: Seq<char>, s: Seq<char>, i: int) -> bool {
    0 <= i && i + part.len() <= s.len() && s.subrange(i, i + part.len()) == part
}

/// Whether `part` stands somewhere in `s`.
pub open spec fn occurs_in(part: Seq<char>, s: Seq<char>) -> bool {
    exists|i: int| stands_at(part, s, i)
}

/// The decimal digit of value `d`.
pub open spec fn digit(d: nat) -> char {
    ('0' as nat + d) as char
}

/// `n` in decimal notation.
pub open spec fn decimal(n: nat) -> Seq<char>
    decreases n,
{
    if n < 10 {
        seq![digit(n)]
    } else {
        decimal(n / 10).push(digit(n % 10))
    }
}

/// `n` in decimal notation, with a leading minus sign when it is negative.
pub open spec fn signed_decimal(n: int) -> Seq<char> {
    if n < 0 {
        seq!['-'] + decimal((-n) as nat)
    } else {
        decimal(n as nat)
    }
}

/// `n` spaces.
pub open spec fn spaces(n: nat) -> Seq<char> {
    Seq::new(n, |i: int| ' ')
}

/// `s` centered in `width` columns: the padding which can't be evenly split
/// goes to the right, and a text which is too long is left as is.
pub open spec fn centered(s: Seq<char>, width: nat) -> Seq<char> {
    if s.len() >= width {
        s
    } else {
        let padding = (width - s.len()) as nat;
        spaces(padding / 2) + s + spaces((padding - padding / 2) as nat)
    }
}

/// `String::push` appends the char.
pub assume_specification[ String::push ](s: &mut String, c: char)
    ensures
        final(s)@ == old(s)@.push(c),
;

/// `String::pop` removes the last char and returns it, or returns `None` and
/// changes nothing when the string is empty.
pub assume_specification[ String::pop ](s: &mut String) -> (c: Option<char>)
    ensures
        old(s)@.len() == 0 ==> c is None && final(s)@ == old(s)@,
        old(s)@.len() > 0 ==> c == Some(old(s)@.last()) && final(s)@ == old(s)@.drop_last(),
;

/// `str::contains` called with a `&str` pattern: true when, and only when,
/// the pattern matches a sub-slice of the string.
#[verifier::external_body]
pub(crate) fn contains(s: &str, part: &str) -> (found: bool)
    ensures
        found == occurs_in(part@, s@),
{
    s.contains(part)
}

/// Copies the characters `from..to`.
pub fn copy(chars: &Vec<char>, from: usize, to: usize) -> (r: String)
    requires
        from <= to <= chars.len(),
    ensures
        r@ == chars@.subrange(from as int, to as int),
{
    let mut r = String::new();
    for k in from..to
        invariant
            from <= to <= chars.len(),
            r@ == chars@.subrange(from as int, k as int),
    {
        r.push(chars[k]);
        assert(r@ =~= chars@.subrange(from as int, k + 1));
    }
    r
}

/// Tells whether `c` is a white space.
pub fn is_white_space(c: char) -> (r: bool)
    ensures
        r == white_space(c),
{
    let n = c as u32;
    (0x9 <= n && n <= 0xd) || n == 0x20 || n == 0x85 || n == 0xa0 || n == 0x1680 || (0x2000 <= n
        && n <= 0x200a) || n == 0x2028 || n == 0x2029 || n == 0x202f || n == 0x205f || n == 0x3000
}

/// Tells whether `s` holds nothing but white space.
pub fn is_blank(s: &str) -> (r: bool)
    ensures
        r == blank(s@),
{
    for c in iter: s.chars()
        invariant
            iter.seq() == s@,
            forall|i: int| 0 <= i < iter.index() ==> white_space(#[trigger] s@[i]),
    {
        if !is_white_space(c) {
            assert(!white_space(s@[iter.index() as int]));
            return false;
        }
    }
    true
}

/// Appends the digit of value `d`.
fn push_digit(s: &mut String, d: u8)
    requires
        d < 10,
    ensures
        final(s)@ == old(s)@.push(digit(d as nat)),
{
    s.push((48u8 + d) as char);
}

/// Appends `n` in decimal notation.
pub fn push_decimal(s: &mut String, n: usize)
    ensures
        final(s)@ == old(s)@ + decimal(n as nat),
    decreases n,
{
    if n < 10 {
        push_digit(s, n as u8);
    } else {
        push_decimal(s, n / 10);
        push_digit(s, (n % 10) as u8);
    }
    assert(s@ =~= old(s)@ + decimal(n as nat));
}

/// Appends `n` in decimal notation, with its sign when it is negative.
pub fn push_signed_decimal(s: &mut String, n: i32)
    ensures
        final(s)@ == old(s)@ + signed_decimal(n as int),
{
    if n < 0 {
        s.push('-');
        let magnitude: i64 = -(n as i64);
        push_decimal(s, magnitude as usize);
        assert(s@ =~= old(s)@ + signed_decimal(n as int));
    } else {
        push_decimal(s, n as usize);
    }
}

/// Appends `n` spaces.
pub fn push_spaces(s: &mut String, n: usize)
    ensures
        final(s)@ == old(s)@ + spaces(n as nat),
{
    for i in 0..n
        invariant
            s@ == old(s)@ + spaces(i as nat),
    {
        s.push(' ');
        assert(s@ =~= old(s)@ + spaces((i + 1) as nat));
    }
}

/// Appends `text`, centered in `width` columns.
pub fn push_centered(s: &mut String, text: &str, width: usize)
    ensures
        final(s)@ == old(s)@ + centered(text@, width as nat),
{
    let len = text.unicode_len();
    if len >= width {
        s.append(text);
    } else {
        let padding = width - len;
        push_spaces(s, padding / 2);
        s.append(text);
        push_spaces(s, padding - padding / 2);
        assert(s@ =~= old(s)@ + centered(text@, width as nat));
    }
}

} // verus!
