//! The search in the output of a command.
use crate::output;
use crate::output::{CommandOutput, CommandOutputLine};
use crate::select;
use crate::text;
use crate::tline;
use crate::tline::{TString, TStringModel};
use vstd::prelude::*;

verus! {

/// What's searched, and where it has been found.
pub struct SearchState {
    pub query: String,
    /// an index in `matches`
    pub current_match: Option<usize>,
    /// the indexes of the lines containing the query
    pub matches: Vec<usize>,
}

/// The content of a [`SearchState`].
#[verifier::ext_equal]
pub struct SearchModel {
    pub query: Seq<char>,
    pub current_match: Option<usize>,
    pub matches: Seq<usize>,
}

impl View for SearchState {
    type V = SearchModel;

    open spec fn view(&self) -> SearchModel {
        SearchModel {
            query: self.query@,
            current_match: self.current_match,
            matches: self.matches@,
        }
    }
}

/// The search before anything has been typed.
pub open spec fn empty_search() -> SearchModel {
    SearchModel { query: Seq::empty(), current_match: None, matches: Seq::empty() }
}

/// The indexes, among the `n` first lines, of those whose text contains the
/// query.
pub open spec fn found(query: Seq<char>, lines: Seq<Seq<TStringModel>>, n: int) -> Seq<usize> {
    select::selected(|i: int| text::occurs_in(query, tline::combined(lines[i])), n)
}

impl SearchModel {
    /// The matches can be counted, and the current one, if any, is one of them.
    pub open spec fn wf(self) -> bool {
        &&& self.matches.len() <= usize::MAX
        &&& self.current_match matches Some(current) ==> current < self.matches.len()
    }

    /// The search once done in these lines. Nothing is searched for when the
    /// query is blank.
    pub open spec fn performed(self, lines: Option<Seq<Seq<TStringModel>>>) -> SearchModel {
        SearchModel {
            query: self.query,
            current_match: None,
            matches: if text::blank(self.query) {
                Seq::empty()
            } else {
                match lines {
                    Some(lines) => found(self.query, lines, lines.len() as int),
                    None => Seq::empty(),
                }
            },
        }
    }

    /// The match which comes after the current one, the first one coming
    /// after the last one.
    pub open spec fn next_match(self) -> Option<usize> {
        match self.current_match {
            Some(current) => Some(((current + 1) % self.matches.len() as int) as usize),
            None => if self.matches.len() > 0 {
                Some(0)
            } else {
                None
            },
        }
    }

    /// The search on its next match.
    pub open spec fn advanced(self) -> SearchModel {
        SearchModel { current_match: self.next_match(), ..self }
    }
}

impl Default for SearchState {
    fn default() -> (r: Self)
        ensures
            r@ == empty_search(),
    {
        SearchState { query: String::new(), current_match: None, matches: Vec::new() }
    }
}

impl SearchState {
    /// Searches these lines.
    pub fn perform(&mut self, output: Option<&CommandOutput>)
        ensures
            final(self)@ == old(self)@.performed(
                match output {
                    Some(output) => Some(output@),
                    None => None,
                },
            ),
            final(self)@.wf(),
    {
        self.matches.clear();
        self.current_match = None;
        if text::is_blank(self.query.as_str()) {
            return;
        }
        if let Some(output) = output {
            for idx in 0..output.lines.len()
                invariant
                    self.query == old(self).query,
                    self.current_match is None,
                    self.matches@ == found(self.query@, output@, idx as int),
            {
                let combined_raw = output.lines[idx].content.combined_raw();
                assert(output@[idx as int] == output.lines[idx as int]@);
                if text::contains(combined_raw.as_str(), self.query.as_str()) {
                    self.matches.push(idx);
                }
            }
        }
        assert(self@.matches.len() == self.matches.len());
    }

    /// Goes to the next match.
    pub fn advance(&mut self)
        requires
            old(self)@.wf(),
        ensures
            final(self)@ == old(self)@.advanced(),
            final(self)@.wf(),
    {
        if let Some(current) = self.current_match {
            let count = self.matches.len();
            self.current_match = Some((current + 1) % count);
        } else if !self.matches.is_empty() {
            self.current_match = Some(0);
        }
    }
}

/// The number of lines, among the `n` first ones, with a string containing
/// the query.
pub open spec fn having(query: Seq<char>, lines: Seq<Seq<TStringModel>>, n: int) -> nat
    decreases n,
{
    if n <= 0 {
        0
    } else if tline::one_has(lines[n - 1], query) {
        having(query, lines, n - 1) + 1
    } else {
        having(query, lines, n - 1)
    }
}

/// The badge put on the lines having the query, in another color on the
/// current match.
pub open spec fn match_badge(current: bool) -> TStringModel {
    tline::badge(
        "MATCH"@,
        235,
        if current {
            10
        } else {
            208
        },
    )
}

/// A line of output, with a badge if it has the query.
pub open spec fn highlighted_line(
    search: SearchModel,
    lines: Seq<Seq<TStringModel>>,
    i: int,
) -> Seq<TStringModel> {
    if tline::one_has(lines[i], search.query) {
        let rank = having(search.query, lines, i);
        let current = match search.current_match {
            Some(current) => current == rank,
            None => false,
        };
        lines[i].push(match_badge(current))
    } else {
        lines[i]
    }
}

/// The lines of output, with badges on those having the query of the search.
pub open spec fn highlighted(
    search: Option<SearchModel>,
    lines: Seq<Seq<TStringModel>>,
) -> Seq<Seq<TStringModel>> {
    match search {
        Some(search) => if text::blank(search.query) {
            lines
        } else {
            Seq::new(lines.len(), |i: int| highlighted_line(search, lines, i))
        },
        None => lines,
    }
}

/// Copies the lines of output, with badges on those having the query of the
/// search.
pub fn highlight(search: &Option<SearchState>, output: &CommandOutput) -> (r: Vec<
    CommandOutputLine,
>)
    ensures
        output::contents(r@) == highlighted(
            match search {
                Some(search) => Some(search@),
                None => None,
            },
            output@,
        ),
{
    let search = match search {
        Some(search) => search,
        None => {
            return output.clone().lines;
        },
    };
    if text::is_blank(search.query.as_str()) {
        return output.clone().lines;
    }
    let mut new_lines: Vec<CommandOutputLine> = Vec::new();
    let mut search_index: usize = 0;
    for i in 0..output.lines.len()
        invariant
            new_lines.len() == i,
            search_index == having(search.query@, output@, i as int),
            search_index <= i,
            forall|j: int|
                0 <= j < i ==> (#[trigger] new_lines[j])@ == highlighted_line(search@, output@, j),
    {
        let mut new_line = output.lines[i].clone();
        assert(output@[i as int] == output.lines[i as int].content@);
        if output.lines[i].content.has(search.query.as_str()) {
            let current = match search.current_match {
                Some(current_match) => current_match == search_index,
                None => false,
            };
            if current {
                new_line.content.add_badge(TString::badge("MATCH", 235, 10));
            } else {
                new_line.content.add_badge(TString::badge("MATCH", 235, 208));
            }
            search_index += 1;
        }
        new_lines.push(new_line);
    }
    assert(output::contents(new_lines@) =~= highlighted(Some(search@), output@));
    new_lines
}

} // verus!
