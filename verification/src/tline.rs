//! Styled strings, and lines made of them.
use crate::text;
use vstd::prelude::*;

verus! {

/// A string and the colors it's drawn with (ansi values, `None` for the
/// color of the terminal).
pub struct TString {
    pub raw: String,
    pub fg: Option<u8>,
    pub bg: Option<u8>,
}

/// The content of a [`TString`].
#[verifier::ext_equal]
pub struct TStringModel {
    pub raw: Seq<char>,
    pub fg: Option<u8>,
    pub bg: Option<u8>,
}

impl View for TString {
    type V = TStringModel;

    open spec fn view(&self) -> TStringModel {
        TStringModel { raw: self.raw@, fg: self.fg, bg: self.bg }
    }
}

/// A badge holding `label`.
pub open spec fn badge(label: Seq<char>, fg: u8, bg: u8) -> TStringModel {
    TStringModel { raw: label, fg: Some(fg), bg: Some(bg) }
}

/// The words telling there are `num` things of a category, which is put
/// in the plural from two things on.
pub open spec fn counted(num: nat, category: Seq<char>) -> Seq<char> {
    let words = text::decimal(num).push(' ') + category;
    if num < 2 {
        words
    } else {
        words.push('s')
    }
}

/// The text of a line: its strings, one after the other.
pub open spec fn combined(strings: Seq<TStringModel>) -> Seq<char>
    decreases strings.len(),
{
    if strings.len() == 0 {
        Seq::empty()
    } else {
        combined(strings.drop_last()) + strings.last().raw
    }
}

/// The text of a line starts with the one of its first strings.
pub proof fn lemma_combined_take(strings: Seq<TStringModel>, n: int)
    requires
        0 <= n <= strings.len(),
    ensures
        combined(strings.take(n)) == combined(strings).take(
            combined(strings.take(n)).len() as int,
        ),
        combined(strings.take(n)).len() <= combined(strings).len(),
    decreases strings.len(),
{
    if n == strings.len() {
        assert(strings.take(n) =~= strings);
    } else {
        let fewer = strings.drop_last();
        lemma_combined_take(fewer, n);
        assert(fewer.take(n) =~= strings.take(n));
    }
    assert(combined(strings.take(n)) =~= combined(strings).take(
        combined(strings.take(n)).len() as int,
    ));
}

/// Whether one of the strings of the line contains `part`.
pub open spec fn one_has(strings: Seq<TStringModel>, part: Seq<char>) -> bool {
    exists|i: int| 0 <= i < strings.len() && text::occurs_in(part, (#[trigger] strings[i]).raw)
}

/// Whether all the strings of the line are blank.
pub open spec fn all_blank(strings: Seq<TStringModel>) -> bool {
    forall|i: int| 0 <= i < strings.len() ==> text::blank((#[trigger] strings[i]).raw)
}

/// The characters `start..end` of the text of a line, in strings with the same
/// colors. A string without any of these characters is left out.
pub open spec fn part(strings: Seq<TStringModel>, start: int, end: int) -> Seq<TStringModel>
    decreases strings.len(),
{
    if strings.len() == 0 {
        strings
    } else {
        let kept = part(strings.drop_last(), start, end);
        let before = combined(strings.drop_last()).len();
        let raw = strings.last().raw;
        let from = if start > before {
            start - before
        } else {
            0
        };
        let to = if end < before + raw.len() {
            end - before
        } else {
            raw.len() as int
        };
        if from < to {
            kept.push(TStringModel { raw: raw.subrange(from, to), ..strings.last() })
        } else {
            kept
        }
    }
}

impl Clone for TString {
    fn clone(&self) -> (r: Self)
        ensures
            r@ == self@,
    {
        TString { raw: self.raw.clone(), fg: self.fg, bg: self.bg }
    }
}

impl TString {
    /// Builds an unstyled string.
    pub fn new(raw: String) -> (r: TString)
        ensures
            r@ == (TStringModel { raw: raw@, fg: None, bg: None }),
    {
        TString { raw, fg: None, bg: None }
    }

    /// Builds a badge.
    pub fn badge(label: &str, fg: u8, bg: u8) -> (r: TString)
        ensures
            r@ == badge(label@, fg, bg),
    {
        TString { raw: label.to_owned(), fg: Some(fg), bg: Some(bg) }
    }

    /// Builds a badge which tells how many things of a category there are.
    pub fn num_badge(num: usize, category: &str, fg: u8, bg: u8) -> (r: TString)
        ensures
            r@ == badge(counted(num as nat, category@), fg, bg),
    {
        let mut raw = String::new();
        text::push_decimal(&mut raw, num);
        raw.push(' ');
        raw.append(category);
        if num >= 2 {
            raw.push('s');
        }
        proof {
            assert(raw@ =~= counted(num as nat, category@));
        }
        TString { raw, fg: Some(fg), bg: Some(bg) }
    }
}

/// A line of styled strings.
pub struct TLine {
    pub strings: Vec<TString>,
}

impl View for TLine {
    type V = Seq<TStringModel>;

    open spec fn view(&self) -> Seq<TStringModel> {
        self.strings@.map_values(|s: TString| s@)
    }
}

impl Clone for TLine {
    fn clone(&self) -> (r: Self)
        ensures
            r@ == self@,
    {
        let mut strings: Vec<TString> = Vec::new();
        for i in 0..self.strings.len()
            invariant
                strings.len() == i,
                i <= self.strings.len(),
                forall|j: int| 0 <= j < i ==> (#[trigger] strings[j])@ == self.strings[j]@,
        {
            strings.push(self.strings[i].clone());
        }
        let r = TLine { strings };
        assert(r@ =~= self@);
        r
    }
}

impl Default for TLine {
    fn default() -> (r: Self)
        ensures
            r@ == Seq::<TStringModel>::empty(),
    {
        let r = TLine { strings: Vec::new() };
        assert(r@ =~= Seq::<TStringModel>::empty());
        r
    }
}

impl TLine {
    /// Builds a line of one unstyled string.
    pub fn from_raw(raw: String) -> (r: TLine)
        ensures
            r@ == seq![TStringModel { raw: raw@, fg: None, bg: None }],
    {
        let mut strings: Vec<TString> = Vec::new();
        strings.push(TString::new(raw));
        let r = TLine { strings };
        assert(r@ =~= seq![TStringModel { raw: raw@, fg: None, bg: None }]);
        r
    }

    /// Adds a badge at the end of the line.
    pub fn add_badge(&mut self, badge: TString)
        ensures
            final(self)@ == old(self)@.push(badge@),
    {
        self.strings.push(badge);
        assert(self@ =~= old(self)@.push(badge@));
    }

    /// Tells whether the line shows nothing.
    pub fn is_blank(&self) -> (r: bool)
        ensures
            r == all_blank(self@),
    {
        for i in 0..self.strings.len()
            invariant
                forall|j: int| 0 <= j < i ==> text::blank((#[trigger] self@[j]).raw),
        {
            if !text::is_blank(self.strings[i].raw.as_str()) {
                assert(!text::blank(self@[i as int].raw));
                return false;
            }
            assert(text::blank(self@[i as int].raw));
        }
        true
    }

    /// Tells whether one of the strings of the line contains `part`.
    pub fn has(&self, part: &str) -> (r: bool)
        ensures
            r == one_has(self@, part@),
    {
        for i in 0..self.strings.len()
            invariant
                forall|j: int| 0 <= j < i ==> !text::occurs_in(part@, (#[trigger] self@[j]).raw),
        {
            if text::contains(self.strings[i].raw.as_str(), part) {
                assert(text::occurs_in(part@, self@[i as int].raw));
                return true;
            }
            assert(!text::occurs_in(part@, self@[i as int].raw));
        }
        false
    }

    /// The text of the line.
    pub fn combined_raw(&self) -> (r: String)
        ensures
            r@ == combined(self@),
    {
        let mut r = String::new();
        for i in 0..self.strings.len()
            invariant
                r@ == combined(self@.take(i as int)),
        {
            r.append(self.strings[i].raw.as_str());
            assert(self@.take(i + 1).drop_last() =~= self@.take(i as int));
            assert(self@.take(i + 1).last() == self@[i as int]);
        }
        assert(self@.take(self@.len() as int) =~= self@);
        r
    }

    /// Copies the characters `start..end` of the line, with their colors.
    pub fn part(&self, start: usize, end: usize) -> (r: TLine)
        ensures
            r@ == part(self@, start as int, end as int),
    {
        let chars = self.chars();
        let mut r = TLine::default();
        let mut before: usize = 0;
        assert(self@.take(0) =~= Seq::<TStringModel>::empty());
        for i in 0..self.strings.len()
            invariant
                chars@ == combined(self@),
                before == combined(self@.take(i as int)).len(),
                r@ == part(self@.take(i as int), start as int, end as int),
        {
            let string = &self.strings[i];
            let ghost done = self@.take(i as int);
            let ghost next = self@.take(i + 1);
            assert(next.drop_last() =~= done);
            assert(next.last() == string@);
            proof {
                lemma_combined_take(self@, i + 1);
                assert(combined(next).len() <= chars.len());
            }
            let after: usize = before + string.raw.as_str().unicode_len();
            let from: usize = if start > before {
                start
            } else {
                before
            };
            let to: usize = if end < after {
                end
            } else {
                after
            };
            if from < to {
                let raw = text::copy(&chars, from, to);
                assert(raw@ =~= string@.raw.subrange(from - before, to - before)) by {
                    assert forall|k: int| from <= k < to implies #[trigger] chars@[k]
                        == string@.raw[k - before] by {
                        assert(chars@[k] == combined(next)[k]);
                    }
                }
                r.add_badge(TString { raw, fg: string.fg, bg: string.bg });
            }
            before = after;
            assert(r@ =~= part(next, start as int, end as int));
        }
        assert(self@.take(self@.len() as int) =~= self@);
        r
    }

    /// The characters of the text of the line.
    pub fn chars(&self) -> (r: Vec<char>)
        ensures
            r@ == combined(self@),
    {
        let mut r: Vec<char> = Vec::new();
        for i in 0..self.strings.len()
            invariant
                r@ == combined(self@.take(i as int)),
        {
            let ghost before = r@;
            let ghost raw = self.strings[i as int].raw@;
            let string = self.strings[i].raw.as_str();
            for c in iter: string.chars()
                invariant
                    iter.seq() == raw,
                    r@ == before + raw.take(iter.index() as int),
            {
                r.push(c);
                assert(raw.take(iter.index() + 1) =~= raw.take(iter.index() as int).push(c));
            }
            assert(raw.take(raw.len() as int) =~= raw);
            assert(self@.take(i + 1).drop_last() =~= self@.take(i as int));
            assert(self@.take(i + 1).last() == self@[i as int]);
        }
        assert(self@.take(self@.len() as int) =~= self@);
        r
    }
}

} // verus!
