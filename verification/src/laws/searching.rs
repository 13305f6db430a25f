//! What's searched is found, shown and highlighted.
use crate::display::OpModel;
use crate::laws::operations;
use crate::laws::wrapping;
use crate::model::StateModel;
use crate::scroll;
use crate::search;
use crate::search::SearchModel;
use crate::select;
use crate::text;
use crate::tline;
use crate::tline::TStringModel;
use crate::wrap;
use vstd::prelude::*;

verus! {

/// The matches are all the lines whose text contains the query, each one once
/// and in order.
pub proof fn matches_are_exact(query: Seq<char>, lines: Seq<Seq<TStringModel>>)
    requires
        lines.len() <= usize::MAX,
    ensures
        forall|i: usize|
            #[trigger] search::found(query, lines, lines.len() as int).contains(i) <==> i
                < lines.len() && text::occurs_in(query, tline::combined(lines[i as int])),
        forall|j: int, k: int|
            0 <= j < k < search::found(query, lines, lines.len() as int).len() ==> search::found(
                query,
                lines,
                lines.len() as int,
            )[j] < search::found(query, lines, lines.len() as int)[k],
{
    let keep = |i: int| text::occurs_in(query, tline::combined(lines[i]));
    let n = lines.len() as int;
    select::selection_is_exact(keep, n);
    assert forall|i: usize|
        #[trigger] search::found(query, lines, n).contains(i) <==> i < n && text::occurs_in(
            query,
            tline::combined(lines[i as int]),
        ) by {
        if i < n && text::occurs_in(query, tline::combined(lines[i as int])) {
            assert(keep(i as int));
        }
    }
}

/// Searching again what didn't change gives the same matches, none of them
/// being the current one.
pub proof fn search_is_repeatable<'s>(state: StateModel<'s>)
    ensures
        state.search_performed().search_performed() == state.search_performed(),
{
}

/// Nothing is found with a blank query, or when there's nothing to search.
pub proof fn blank_query_finds_nothing(
    search: SearchModel,
    lines: Option<Seq<Seq<TStringModel>>>,
)
    requires
        text::blank(search.query) || lines is None,
    ensures
        search.performed(lines).matches.len() == 0,
        search.performed(lines).next_match() is None,
{
}

/// Typing a character then removing it brings back the query, searched anew.
pub proof fn typed_then_removed<'s>(state: StateModel<'s>, c: char)
    ensures
        state.search_updated(c).search_backspaced() == state.search_performed(),
{
    if let Some(search) = state.search {
        assert(search.query.push(c).drop_last() =~= search.query);
    }
}

/// Typing a character adds exactly this one at the end of the query, and
/// removing one removes the last one. Besides this, only the matches change.
pub proof fn query_is_what_is_typed<'s>(state: StateModel<'s>, search: SearchModel, c: char)
    requires
        state.search == Some(search),
    ensures
        state.search_updated(c).search is Some,
        state.search_updated(c).search->0.query == search.query + seq![c],
        state == (StateModel { search: state.search, ..state.search_updated(c) }),
        state.search_backspaced().search is Some,
        state.search_backspaced().search->0.query.len() == if search.query.len() == 0 {
            0
        } else {
            search.query.len() - 1
        },
        forall|i: int|
            0 <= i < search.query.len() - 1
                ==> #[trigger] state.search_backspaced().search->0.query[i] == search.query[i],
        state == (StateModel { search: state.search, ..state.search_backspaced() }),
        state.search_performed().search is Some,
        state.search_performed().search->0.query == search.query,
        state == (StateModel { search: state.search, ..state.search_performed() }),
{
    assert(search.query.push(c) =~= search.query + seq![c]);
}

/// The state after these characters have been typed, one after the other.
pub open spec fn typed<'s>(state: StateModel<'s>, chars: Seq<char>) -> StateModel<'s>
    decreases chars.len(),
{
    if chars.len() == 0 {
        state
    } else {
        typed(state, chars.drop_last()).search_updated(chars.last())
    }
}

/// The query is made of all that was typed, in order. In a search which just
/// started, it's exactly this.
pub proof fn query_is_all_that_is_typed<'s>(state: StateModel<'s>, chars: Seq<char>)
    requires
        state.search is Some,
    ensures
        typed(state, chars).search is Some,
        typed(state, chars).search->0.query == state.search->0.query + chars,
        typed(state.search_exited().search_started(), chars).search is Some,
        typed(state.search_exited().search_started(), chars).search->0.query == chars,
    decreases chars.len(),
{
    let fresh = state.search_exited().search_started();
    if chars.len() == 0 {
        assert(state.search->0.query + chars =~= state.search->0.query);
        assert(chars =~= Seq::<char>::empty());
    } else {
        let fewer = chars.drop_last();
        query_is_all_that_is_typed(state, fewer);
        let before = typed(state, fewer);
        query_is_what_is_typed(before, before.search->0, chars.last());
        assert(state.search->0.query + chars =~= state.search->0.query + fewer + seq![
            chars.last(),
        ]);
        let fresh_before = typed(fresh, fewer);
        query_is_what_is_typed(fresh_before, fresh_before.search->0, chars.last());
        assert(chars =~= fewer + seq![chars.last()]);
    }
}

/// Whether a query is in the text of a line, with the same characters, upper
/// case or not.
pub open spec fn is_in_line(query: Seq<char>, line: Seq<TStringModel>) -> bool {
    exists|before: Seq<char>, after: Seq<char>|
        tline::combined(line) == #[trigger] (before + query + after)
}

/// After a search, the matches are exactly the lines of the output whose text
/// contains the query, in order, unless the query has only white spaces: then
/// there's none. No match is the current one.
pub proof fn matches_are_the_lines_with_the_query<'s>(
    state: StateModel<'s>,
    output: Seq<Seq<TStringModel>>,
)
    requires
        state.search is Some,
        state.shown_output() == Some(output),
        output.len() <= usize::MAX,
    ensures
        ({
            let search = state.search_performed().search->0;
            &&& search.current_match is None
            &&& text::blank(search.query) ==> search.matches.len() == 0
            &&& forall|i: usize|
                !text::blank(search.query) ==> (#[trigger] search.matches.contains(i) <==> i
                    < output.len() && is_in_line(search.query, output[i as int]))
            &&& forall|j: int, k: int|
                0 <= j < k < search.matches.len() ==> search.matches[j] < search.matches[k]
        }),
{
    let search = state.search_performed().search->0;
    matches_are_exact(search.query, output);
    assert forall|i: usize|
        !text::blank(search.query) implies (#[trigger] search.matches.contains(i) <==> i
        < output.len() && is_in_line(search.query, output[i as int])) by {
        if i < output.len() {
            crate::laws::texts::containing_is_having_around(
                search.query,
                tline::combined(output[i as int]),
            );
        }
    }
}

/// Typing, or removing what was typed, searches for the new query: the matches
/// are those of a search for it.
pub proof fn typing_finds_the_new_query<'s>(state: StateModel<'s>, c: char)
    requires
        state.search is Some,
    ensures
        state.search_updated(c) == state.search_updated(c).search_performed(),
        state.search_backspaced() == state.search_backspaced().search_performed(),
{
}

/// Nothing is typed or found when there's no search.
pub proof fn no_search_no_change<'s>(state: StateModel<'s>, c: char)
    requires
        state.search is None,
    ensures
        state.search_updated(c) == state,
        state.search_backspaced() == state,
        state.search_performed() == state,
        state.search_advanced() == state,
{
}

/// The search after going `n` times to the next match.
pub open spec fn advanced_by(search: SearchModel, n: nat) -> SearchModel
    decreases n,
{
    if n == 0 {
        search
    } else {
        advanced_by(search, (n - 1) as nat).advanced()
    }
}

/// The first match which is visited is the first one.
pub proof fn first_match_comes_first(search: SearchModel)
    requires
        search.wf(),
        search.current_match is None,
        search.matches.len() > 0,
    ensures
        search.advanced().current_match == Some(0usize),
        search.advanced().wf(),
{
}

/// The matches are visited one after the other, in order, and the first one
/// comes after the last one.
pub proof fn matches_are_visited_in_turn(search: SearchModel, current: usize, n: nat)
    requires
        search.wf(),
        search.current_match == Some(current),
    ensures
        advanced_by(search, n).matches == search.matches,
        advanced_by(search, n).query == search.query,
        advanced_by(search, n).current_match == Some(
            ((current + n) % search.matches.len() as int) as usize,
        ),
    decreases n,
{
    let count = search.matches.len() as int;
    if n == 0 {
        vstd::arithmetic::div_mod::lemma_small_mod(current as nat, count as nat);
    } else {
        let before = (n - 1) as nat;
        matches_are_visited_in_turn(search, current, before);
        let reached = (current + before) % count;
        assert(0 <= reached < count) by {
            vstd::arithmetic::div_mod::lemma_mod_bound(current + before, count);
        }
        vstd::arithmetic::div_mod::lemma_add_mod_noop_right(1, current + before, count);
        assert((reached + 1) % count == (current + n) % count);
        assert(0 <= (current + n) % count < count) by {
            vstd::arithmetic::div_mod::lemma_mod_bound(current + n, count);
        }
    }
}

/// Going to the next match as many times as there are matches comes back to
/// the same match.
pub proof fn matches_are_cycled(search: SearchModel, current: usize)
    requires
        search.wf(),
        search.current_match == Some(current),
    ensures
        advanced_by(search, search.matches.len()) == search,
{
    let count = search.matches.len() as int;
    matches_are_visited_in_turn(search, current, search.matches.len());
    vstd::arithmetic::div_mod::lemma_mod_add_multiples_vanish(current as int, count);
    vstd::arithmetic::div_mod::lemma_small_mod(current as nat, count as nat);
}

/// Whether the search has just been done in the output: its matches are those
/// of the output, each one once and in order, and none of them is the current
/// one.
pub open spec fn is_fresh<'s>(state: StateModel<'s>) -> bool {
    match state.search {
        Some(search) => {
            &&& search == search.performed(state.shown_output())
            &&& forall|j: int, k: int|
                0 <= j < k < search.matches.len() ==> search.matches[j] < search.matches[k]
        },
        None => false,
    }
}

/// Typing or removing a character searches anew.
pub proof fn typing_searches_anew<'s>(state: StateModel<'s>, c: char)
    requires
        state.wf(),
        state.search is Some,
    ensures
        is_fresh(state.search_performed()),
        state.search_performed().wf(),
        is_fresh(state.search_updated(c)),
        state.search_updated(c).wf(),
        is_fresh(state.search_backspaced()),
        state.search_backspaced().wf(),
{
    if let Some(lines) = state.shown_output() {
        let queries = seq![
            state.search->0.query,
            state.search_updated(c).search->0.query,
            state.search_backspaced().search->0.query,
        ];
        assert forall|i: int| 0 <= i < 3 implies {
            let found = search::found(#[trigger] queries[i], lines, lines.len() as int);
            &&& found.len() <= lines.len()
            &&& forall|j: int, k: int| 0 <= j < k < found.len() ==> found[j] < found[k]
        } by {
            select::selection_is_exact(
                |l: int| text::occurs_in(queries[i], tline::combined(lines[l])),
                lines.len() as int,
            );
        }
        assert(queries[0] == state.search->0.query);
        assert(queries[1] == state.search_updated(c).search->0.query);
        assert(queries[2] == state.search_backspaced().search->0.query);
    }
}

/// The state after going `n` times to the next match.
pub open spec fn visited<'s>(state: StateModel<'s>, n: nat) -> StateModel<'s>
    decreases n,
{
    if n == 0 {
        state
    } else {
        visited(state, (n - 1) as nat).search_advanced()
    }
}

/// After a search, going to the next match visits the matches in turn, from
/// the first one on, and the first one comes after the last one. Each time the
/// scroll is the index of the line, or as near of it as possible. Nothing else
/// changes, and nothing changes at all when there's no match.
pub proof fn fresh_matches_are_visited_in_turn<'s>(state: StateModel<'s>, n: nat)
    requires
        state.wf(),
        is_fresh(state),
    ensures
        state.search->0.matches.len() == 0 ==> visited(state, n) == state,
        state.search->0.matches.len() > 0 && n >= 1 ==> {
            let current = (n - 1) % state.search->0.matches.len() as int;
            visited(state, n) == (StateModel {
                search: Some(
                    SearchModel { current_match: Some(current as usize), ..state.search->0 },
                ),
                scroll: scroll::fixed_scroll(
                    state.search->0.matches[current] as int,
                    state.content_height(),
                    state.page_height(),
                ),
                ..state
            })
        },
    decreases n,
{
    let search = state.search->0;
    let count = search.matches.len() as int;
    if n >= 1 {
        let before = visited(state, (n - 1) as nat);
        fresh_matches_are_visited_in_turn(state, (n - 1) as nat);
        if count > 0 {
            assert(before.content_height() == state.content_height());
            let current = (n - 1) % count;
            assert(0 <= current < count) by {
                vstd::arithmetic::div_mod::lemma_mod_bound(n - 1, count);
            }
            if n == 1 {
                vstd::arithmetic::div_mod::lemma_small_mod(0, count as nat);
                assert(before.search->0.next_match() == Some(0usize));
            } else {
                let previous = (n - 2) % count;
                vstd::arithmetic::div_mod::lemma_mod_bound(n - 2, count);
                vstd::arithmetic::div_mod::lemma_add_mod_noop_right(1, n - 2, count);
                assert((previous + 1) % count == current);
                assert(before.search->0.next_match() == Some(current as usize));
            }
            let advanced = StateModel { search: Some(before.search->0.advanced()), ..before };
            let moved = StateModel { scroll: search.matches[current] as int, ..advanced };
            assert(moved.content_height() == state.content_height());
            assert(visited(state, n) == moved.scroll_fixed());
        }
    }
}

/// After a search, the first calls visit each match exactly once, in the order
/// of the lines, and one more call is back at the first match.
pub proof fn each_match_is_visited_once<'s>(state: StateModel<'s>, i: int)
    requires
        state.wf(),
        is_fresh(state),
        0 <= i < state.search->0.matches.len(),
    ensures
        visited(state, (i + 1) as nat).search->0.current_match == Some(i as usize),
        visited(state, state.search->0.matches.len() + 1).search->0.current_match == Some(0usize),
{
    let count = state.search->0.matches.len();
    fresh_matches_are_visited_in_turn(state, (i + 1) as nat);
    fresh_matches_are_visited_in_turn(state, count + 1);
    vstd::arithmetic::div_mod::lemma_small_mod(i as nat, count);
    vstd::arithmetic::div_mod::lemma_mod_self_0(count as int);
}

/// Going to the next match goes to the one after the current one, to the first
/// one after the last one, or to the first one when there's no current one. The
/// scroll is then the index of its line, or as near of it as possible. Nothing
/// else changes, and nothing at all when there's nowhere to go.
pub proof fn next_match_is_the_one_after<'s>(state: StateModel<'s>, search: SearchModel)
    requires
        state.wf(),
        state.search == Some(search),
    ensures
        ({
            let after = state.search_advanced();
            let current = after.search->0.current_match;
            let count = search.matches.len() as int;
            &&& count == 0 ==> after == state
            &&& count > 0 ==> {
                &&& after.search == Some(SearchModel { current_match: current, ..search })
                &&& current is Some
                &&& search.current_match is None ==> current->0 == 0
                &&& search.current_match is Some && search.current_match->0 < count - 1
                    ==> current->0 == search.current_match->0 + 1
                &&& search.current_match is Some && search.current_match->0 == count - 1
                    ==> current->0 == 0
                &&& operations::nearest(
                    after,
                    search.matches[current->0 as int] as int,
                    after.scroll,
                )
                &&& state == (StateModel {
                    search: state.search,
                    scroll: state.scroll,
                    ..after
                })
            }
        }),
{
    let count = search.matches.len();
    let advanced = StateModel { search: Some(search.advanced()), ..state };
    assert(advanced.content_height() == state.content_height());
    assert(state.search_advanced().content_height() == state.content_height());
    if let Some(current) = search.current_match {
        if current < count - 1 {
            vstd::arithmetic::div_mod::lemma_small_mod((current + 1) as nat, count);
        } else {
            vstd::arithmetic::div_mod::lemma_mod_self_0(count as int);
        }
    }
}

/// When it's the output which is shown, line by line, the line of the match
/// we're going to is displayed, provided that it's in the content and that
/// there's some place for this one.
pub proof fn next_match_is_displayed<'s>(state: StateModel<'s>, output: Seq<Seq<TStringModel>>)
    requires
        state.wf(),
        !state.wrap,
        state.report_to_draw() is None,
        state.shown_output() == Some(output),
        state.page_height() > 0,
        state.search is Some,
        state.search->0.next_match() is Some,
        state.search->0.matches[state.search->0.next_match()->0 as int] < output.len(),
        state.search->0.matches[state.search->0.next_match()->0 as int] < state.content_height(),
    ensures
        ({
            let after = state.search_advanced();
            let line_idx = state.search->0.matches[state.search->0.next_match()->0 as int] as int;
            &&& after.scroll <= line_idx < after.scroll + state.page_height()
            &&& after.output_row(output, line_idx - after.scroll) == seq![
                OpModel::Text {
                    content: search::highlighted(after.search, output)[line_idx],
                    cols: state.width as usize,
                },
            ]
        }),
{
    let advanced = StateModel { search: Some(state.search->0.advanced()), ..state };
    assert(advanced.content_height() == state.content_height());
}

/// The text of a line contains what one of its strings contains.
pub proof fn text_has_what_a_string_has(strings: Seq<TStringModel>, part: Seq<char>)
    requires
        tline::one_has(strings, part),
    ensures
        text::occurs_in(part, tline::combined(strings)),
    decreases strings.len(),
{
    let i = choose|i: int|
        0 <= i < strings.len() && text::occurs_in(part, (#[trigger] strings[i]).raw);
    let fewer = strings.drop_last();
    let start = tline::combined(fewer);
    let all = tline::combined(strings);
    if i == strings.len() - 1 {
        let p = choose|p: int| text::stands_at(part, strings[i].raw, p);
        assert(all.subrange(start.len() + p, start.len() + p + part.len()) =~= part) by {
            assert forall|k: int| 0 <= k < part.len() implies #[trigger] part[k]
                == all[start.len() + p + k] by {
                assert(strings[i].raw.subrange(p, p + part.len())[k] == part[k]);
            }
        }
        assert(text::stands_at(part, all, start.len() + p));
    } else {
        assert(fewer[i] == strings[i]);
        text_has_what_a_string_has(fewer, part);
        let p = choose|p: int| text::stands_at(part, start, p);
        assert(all.subrange(p, p + part.len()) =~= start.subrange(p, p + part.len()));
        assert(text::stands_at(part, all, p));
    }
}

/// The lines stay the same, in the same order, but for a badge at the end of
/// some of them. Those lines are matches of the search.
pub proof fn highlighting_only_adds_badges(search: SearchModel, lines: Seq<Seq<TStringModel>>)
    requires
        lines.len() <= usize::MAX,
    ensures
        search::highlighted(None, lines) == lines,
        text::blank(search.query) ==> search::highlighted(Some(search), lines) == lines,
        search::highlighted(Some(search), lines).len() == lines.len(),
        forall|i: int|
            0 <= i < lines.len() ==> {
                let line = #[trigger] search::highlighted(Some(search), lines)[i];
                ||| line == lines[i]
                ||| line == lines[i].push(search::match_badge(true))
                ||| line == lines[i].push(search::match_badge(false))
            },
        forall|i: int|
            0 <= i < lines.len() && #[trigger] search::highlighted(Some(search), lines)[i]
                != lines[i] ==> search.performed(Some(lines)).matches.contains(i as usize),
{
    matches_are_exact(search.query, lines);
    assert forall|i: int|
        0 <= i < lines.len() && #[trigger] search::highlighted(Some(search), lines)[i]
            != lines[i] implies search.performed(Some(lines)).matches.contains(i as usize) by {
        text_has_what_a_string_has(lines[i], search.query);
    }
}

/// How many of the first `n` lines have a string containing the query.
pub open spec fn lines_having(query: Seq<char>, lines: Seq<Seq<TStringModel>>, n: int) -> int
    decreases n,
{
    if n <= 0 {
        0
    } else {
        lines_having(query, lines, n - 1) + if tline::one_has(lines[n - 1], query) {
            1int
        } else {
            0int
        }
    }
}

proof fn lemma_lines_having(query: Seq<char>, lines: Seq<Seq<TStringModel>>, n: int)
    ensures
        search::having(query, lines, n) == lines_having(query, lines, n),
    decreases n,
{
    if n > 0 {
        lemma_lines_having(query, lines, n - 1);
    }
}

/// With a query which isn't blank, the lines with a string containing it, and
/// only them, get a badge saying so at their end. It's green on the one of the
/// rank of the current match, and orange on the other ones.
pub proof fn lines_with_the_query_get_a_badge(
    search: SearchModel,
    lines: Seq<Seq<TStringModel>>,
    i: int,
)
    requires
        !text::blank(search.query),
        0 <= i < lines.len(),
    ensures
        ({
            let after = search::highlighted(Some(search), lines);
            let rank = lines_having(search.query, lines, i);
            let is_current = search.current_match is Some && search.current_match->0 == rank;
            let bg = if is_current {
                10u8
            } else {
                208u8
            };
            &&& after.len() == lines.len()
            &&& after[i] == if tline::one_has(lines[i], search.query) {
                lines[i] + seq![TStringModel { raw: "MATCH"@, fg: Some(235), bg: Some(bg) }]
            } else {
                lines[i]
            }
        }),
{
    lemma_lines_having(search.query, lines, i);
    let current = search::match_badge(true);
    let other = search::match_badge(false);
    assert(lines[i].push(current) =~= lines[i] + seq![current]);
    assert(lines[i].push(other) =~= lines[i] + seq![other]);
}

/// When the lines are wrapped, the rows of a line having the query go over its
/// whole text then over its badge.
pub proof fn wrapped_rows_go_over_the_badge(
    search: SearchModel,
    lines: Seq<Seq<TStringModel>>,
    width: u16,
    k: int,
)
    requires
        !text::blank(search.query),
        lines.len() <= usize::MAX,
        forall|i: int|
            0 <= i < lines.len() ==> tline::combined(#[trigger] lines[i]).len() + 5 <= usize::MAX,
        0 <= k < lines.len(),
        tline::one_has(lines[k], search.query),
    ensures
        ({
            let after = search::highlighted(Some(search), lines);
            let rows = wrapping::of_line(wrap::wrapped_output(after, width).sub_lines, k);
            &&& tline::combined(after[k]) == tline::combined(lines[k]) + "MATCH"@
            &&& wrapping::rows_follow(
                rows,
                k as usize,
                0,
                (tline::combined(lines[k]).len() + 5) as int,
            )
        }),
{
    let after = search::highlighted(Some(search), lines);
    reveal_strlit("MATCH");
    assert forall|i: int| 0 <= i < after.len() implies tline::combined(#[trigger] after[i]).len()
        <= usize::MAX by {
        lemma_highlighted_text(search, lines, i);
        assert(tline::combined(lines[i]).len() + 5 <= usize::MAX);
    }
    lemma_highlighted_text(search, lines, k);
    wrapping::output_rows_show_all_lines(after, width, k);
}

proof fn lemma_highlighted_text(search: SearchModel, lines: Seq<Seq<TStringModel>>, i: int)
    requires
        !text::blank(search.query),
        0 <= i < lines.len(),
    ensures
        tline::combined(search::highlighted(Some(search), lines)[i]) == if tline::one_has(
            lines[i],
            search.query,
        ) {
            tline::combined(lines[i]) + "MATCH"@
        } else {
            tline::combined(lines[i])
        },
{
    let current = search::match_badge(true);
    let other = search::match_badge(false);
    assert(lines[i].push(current).drop_last() =~= lines[i]);
    assert(lines[i].push(other).drop_last() =~= lines[i]);
}

proof fn lemma_having_grows(query: Seq<char>, lines: Seq<Seq<TStringModel>>, i: int, j: int)
    requires
        0 <= i <= j,
    ensures
        search::having(query, lines, i) <= search::having(query, lines, j),
    decreases j - i,
{
    if i < j {
        lemma_having_grows(query, lines, i, j - 1);
    }
}

/// At most one line has the badge of the current match.
pub proof fn one_line_is_current(
    search: SearchModel,
    lines: Seq<Seq<TStringModel>>,
    i: int,
    j: int,
)
    requires
        0 <= i < lines.len(),
        0 <= j < lines.len(),
        !text::blank(search.query),
        search::highlighted(Some(search), lines)[i] == lines[i].push(search::match_badge(true)),
        search::highlighted(Some(search), lines)[j] == lines[j].push(search::match_badge(true)),
    ensures
        i == j,
{
    lemma_is_current(search, lines, i);
    lemma_is_current(search, lines, j);
    if i < j {
        lemma_having_grows(search.query, lines, i + 1, j);
    } else if j < i {
        lemma_having_grows(search.query, lines, j + 1, i);
    }
}

proof fn lemma_is_current(search: SearchModel, lines: Seq<Seq<TStringModel>>, i: int)
    requires
        0 <= i < lines.len(),
        !text::blank(search.query),
        search::highlighted(Some(search), lines)[i] == lines[i].push(search::match_badge(true)),
    ensures
        tline::one_has(lines[i], search.query),
        search.current_match is Some,
        search.current_match->0 == search::having(search.query, lines, i),
{
    let line = search::highlighted(Some(search), lines)[i];
    assert(line == search::highlighted_line(search, lines, i));
    assert(line.len() == lines[i].len() + 1);
    assert(line.last() == search::match_badge(true));
    assert(search::match_badge(true).bg == Some(10u8));
    assert(search::match_badge(false).bg == Some(208u8));
}

proof fn lemma_rank(query: Seq<char>, lines: Seq<Seq<TStringModel>>, n: int)
    requires
        0 <= n <= lines.len() <= usize::MAX,
        forall|i: int|
            0 <= i < lines.len() ==> (text::occurs_in(query, tline::combined(#[trigger] lines[i]))
                ==> tline::one_has(lines[i], query)),
    ensures
        search::found(query, lines, n).len() == search::having(query, lines, n),
        forall|k: int|
            0 <= k < search::found(query, lines, n).len() ==> {
                let i = #[trigger] search::found(query, lines, n)[k];
                &&& i < n
                &&& tline::one_has(lines[i as int], query)
                &&& search::having(query, lines, i as int) == k
            },
    decreases n,
{
    if n > 0 {
        lemma_rank(query, lines, n - 1);
        if tline::one_has(lines[n - 1], query) {
            text_has_what_a_string_has(lines[n - 1], query);
        }
        let all = search::found(query, lines, n);
        let before = search::found(query, lines, n - 1);
        assert forall|k: int| 0 <= k < all.len() implies {
            let i = #[trigger] all[k];
            &&& i < n
            &&& tline::one_has(lines[i as int], query)
            &&& search::having(query, lines, i as int) == k
        } by {
            if k < before.len() {
                assert(all[k] == before[k]);
            }
        }
    }
}

/// When no match runs over several strings of a line, the badge of the
/// current match is on the line of the current match.
pub proof fn current_match_has_its_badge(
    search: SearchModel,
    lines: Seq<Seq<TStringModel>>,
    current: usize,
)
    requires
        lines.len() <= usize::MAX,
        !text::blank(search.query),
        search.wf(),
        search.matches == search.performed(Some(lines)).matches,
        search.current_match == Some(current),
        forall|i: int|
            0 <= i < lines.len() ==> (text::occurs_in(
                search.query,
                tline::combined(#[trigger] lines[i]),
            ) ==> tline::one_has(lines[i], search.query)),
    ensures
        search.matches[current as int] < lines.len(),
        search::highlighted(Some(search), lines)[search.matches[current as int] as int]
            == lines[search.matches[current as int] as int].push(search::match_badge(true)),
{
    lemma_rank(search.query, lines, lines.len() as int);
    let i = search::found(search.query, lines, lines.len() as int)[current as int];
    assert(i == search.matches[current as int]);
}

} // verus!
