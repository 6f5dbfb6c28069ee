//! The session: what an entered line asks for, and what the session does after it.

use crate::numbers::{bounded_value, parse_unsigned, trim_marked, trimmed_with};
use crate::search::SearchTerm;
use crate::text::{
    append_chars, chars_of, clusters_view, grapheme_clusters, mark_whitespace, split_graphemes,
    string_of, strings_view, whitespace_marks,
};
use vstd::prelude::*;

verus! {

/// How the searches of a session are made.
#[derive(Debug, Clone, Copy, PartialEq, Eq, Structural)]
pub struct SearchOptions {
    pub limit: usize,
    pub offset: usize,
    pub fuzzy: bool,
    pub distance: u8,
}

/// A change of the search options.
#[derive(Debug, Clone, Copy, PartialEq, Eq, Structural)]
pub enum SearchOptionUpdate {
    Limit(usize),
    Distance(u8),
}

/// What the user asks for during a session.
pub enum InteractiveSearchInput {
    BrowseBackword,
    BrowseForward,
    Quit,
    Search(String),
    SearchOptionsUpdate(SearchOptionUpdate),
    OpenPdf(u32),
}

/// The parts of `text` between its spaces, from `start` on, when the part being read
/// began at `start` and has no space before `pos`. There is one part more than there
/// are spaces; a part may be empty.
pub open spec fn split_from(text: Seq<char>, start: int, pos: int) -> Seq<Seq<char>>
    decreases text.len() - pos,
{
    if pos < 0 || pos >= text.len() {
        seq![text.subrange(start, text.len() as int)]
    } else if text[pos] == ' ' {
        seq![text.subrange(start, pos)] + split_from(text, pos + 1, pos + 1)
    } else {
        split_from(text, start, pos + 1)
    }
}

/// The parts of `text` between its spaces.
pub open spec fn split_spaces(text: Seq<char>) -> Seq<Seq<char>> {
    split_from(text, 0, 0)
}

/// Cuts `text` at its spaces.
pub fn split_at_spaces(text: &str) -> (parts: Vec<String>)
    ensures
        strings_view(parts@) == split_spaces(text@),
        parts@.len() > 0,
{
    split_chars_at_spaces(&chars_of(text))
}

/// Cuts `chars` at its spaces.
pub fn split_chars_at_spaces(chars: &Vec<char>) -> (parts: Vec<String>)
    ensures
        strings_view(parts@) == split_spaces(chars@),
        parts@.len() > 0,
{
    let n = chars.len();
    let mut parts: Vec<String> = Vec::new();
    let mut part: Vec<char> = Vec::new();
    let mut start: usize = 0;
    let mut pos: usize = 0;
    let ghost mut done: Seq<Seq<char>> = Seq::empty();
    proof {
        assert(done + split_from(chars@, 0, 0) =~= split_from(chars@, 0, 0));
        assert(strings_view(parts@) =~= done);
    }
    while pos < n
        invariant
            n == chars.len(),
            start <= pos <= n,
            part@ == chars@.subrange(start as int, pos as int),
            split_spaces(chars@) == done + split_from(chars@, start as int, pos as int),
            strings_view(parts@) == done,
        decreases n - pos,
    {
        if chars[pos] == ' ' {
            let word = string_of(&part);
            proof {
                assert(done + (seq![word@] + split_from(chars@, pos + 1, pos + 1)) =~= done.push(
                    word@,
                ) + split_from(chars@, pos + 1, pos + 1));
                assert(strings_view(parts@.push(word)) =~= done.push(word@));
                done = done.push(word@);
            }
            parts.push(word);
            part = Vec::new();
            pos += 1;
            start = pos;
        } else {
            part.push(chars[pos]);
            pos += 1;
        }
    }
    let word = string_of(&part);
    proof {
        assert(strings_view(parts@.push(word)) =~= done.push(word@));
        assert(done + seq![word@] =~= done.push(word@));
    }
    parts.push(word);
    parts
}

/// What an entered line asks for, as mathematical values.
pub enum LineMeaning {
    Quit,
    OpenPdf(u32),
    Limit(usize),
    Distance(u8),
    /// A line that begins with `#` and sets nothing that can be set.
    NoSetting,
    Search(Seq<char>),
}

/// The setting that a line names, behind its first space, with the value that follows
/// the next space.
pub open spec fn setting_of(parts: Seq<Seq<char>>) -> LineMeaning {
    if parts.len() >= 3 && parts[1] == "limit"@ {
        match bounded_value(parts[2], usize::MAX as nat) {
            Some(limit) => LineMeaning::Limit(limit as usize),
            None => LineMeaning::NoSetting,
        }
    } else if parts.len() >= 3 && parts[1] == "distance"@ {
        match bounded_value(parts[2], u8::MAX as nat) {
            Some(distance) => LineMeaning::Distance(distance as u8),
            None => LineMeaning::NoSetting,
        }
    } else {
        LineMeaning::NoSetting
    }
}

/// The number of a result that a line stands for, with or without marked characters
/// around it.
pub open spec fn result_number(line: Seq<char>, marks: Seq<bool>) -> Option<nat> {
    bounded_value(trimmed_with(line, marks), u32::MAX as nat)
}

/// What an entered line asks for, where the marked characters are its white space: `q`
/// ends the session; a number opens the result of that number; a line that begins with
/// `#` changes a setting; every other line is searched for.
pub open spec fn marked_line_meaning(line: Seq<char>, marks: Seq<bool>) -> LineMeaning {
    if line == "q"@ {
        LineMeaning::Quit
    } else if result_number(line, marks) is Some {
        LineMeaning::OpenPdf(result_number(line, marks)->0 as u32)
    } else if line.len() > 0 && line[0] == '#' {
        setting_of(split_spaces(line))
    } else {
        LineMeaning::Search(line)
    }
}

/// What an entered line asks for.
pub open spec fn line_meaning(line: Seq<char>) -> LineMeaning {
    marked_line_meaning(line, whitespace_marks(line))
}

/// Whether `input` is what a line with the meaning `meaning` asks for.
pub open spec fn asks_for(input: Option<InteractiveSearchInput>, meaning: LineMeaning) -> bool {
    match meaning {
        LineMeaning::Quit => input matches Some(InteractiveSearchInput::Quit),
        LineMeaning::OpenPdf(number) => input matches Some(InteractiveSearchInput::OpenPdf(n))
            && n == number,
        LineMeaning::Limit(limit) => input matches Some(
            InteractiveSearchInput::SearchOptionsUpdate(SearchOptionUpdate::Limit(n)),
        ) && n == limit,
        LineMeaning::Distance(distance) => input matches Some(
            InteractiveSearchInput::SearchOptionsUpdate(SearchOptionUpdate::Distance(n)),
        ) && n == distance,
        LineMeaning::NoSetting => input is None,
        LineMeaning::Search(term) => input matches Some(InteractiveSearchInput::Search(t)) && t@
            == term,
    }
}

/// Reads the number of a result from a line whose marked characters are its white
/// space.
pub fn parse_marked_number(line: &Vec<char>, marks: &Vec<bool>) -> (number: Option<u32>)
    ensures
        number matches Some(n) ==> result_number(line@, marks@) == Some(n as nat),
        number is None ==> result_number(line@, marks@) is None,
{
    let inner = trim_marked(line, marks);
    match parse_unsigned(&inner, 0xffff_ffff) {
        Some(n) => Some(n as u32),
        None => None,
    }
}

/// Reads the number of a result from a line: the line stands for it, with or without
/// white space around it.
pub fn parse_result_number(line: &str) -> (number: Option<u32>)
    ensures
        number matches Some(n) ==> result_number(line@, whitespace_marks(line@)) == Some(n as nat),
        number is None ==> result_number(line@, whitespace_marks(line@)) is None,
{
    let chars = chars_of(line);
    let marks = mark_whitespace(&chars);
    parse_marked_number(&chars, &marks)
}

/// Reads what an entered line asks for, where the marked characters are its white
/// space; nothing for a line that begins with `#` and sets nothing that can be set.
pub fn parse_marked_line(chars: &Vec<char>, marks: &Vec<bool>) -> (input: Option<
    InteractiveSearchInput,
>)
    ensures
        asks_for(input, marked_line_meaning(chars@, marks@)),
{
    proof {
        reveal_strlit("q");
    }
    if chars.len() == 1 && chars[0] == 'q' {
        assert(chars@ =~= "q"@);
        return Some(InteractiveSearchInput::Quit);
    }
    match parse_marked_number(chars, marks) {
        Some(number) => {
            return Some(InteractiveSearchInput::OpenPdf(number));
        },
        None => {},
    }
    if chars.len() > 0 && chars[0] == '#' {
        let parts = split_chars_at_spaces(chars);
        if parts.len() < 3 {
            return None;
        }
        assert(strings_view(parts@)[1] == parts@[1]@);
        assert(strings_view(parts@)[2] == parts@[2]@);
        let value = chars_of(parts[2].as_str());
        if parts[1] == "limit".to_owned() {
            return match parse_unsigned(&value, usize::MAX as u64) {
                Some(limit) => Some(
                    InteractiveSearchInput::SearchOptionsUpdate(
                        SearchOptionUpdate::Limit(limit as usize),
                    ),
                ),
                None => None,
            };
        }
        proof {
            reveal_strlit("limit");
            reveal_strlit("distance");
        }
        if parts[1] == "distance".to_owned() {
            return match parse_unsigned(&value, 255) {
                Some(distance) => Some(
                    InteractiveSearchInput::SearchOptionsUpdate(
                        SearchOptionUpdate::Distance(distance as u8),
                    ),
                ),
                None => None,
            };
        }
        return None;
    }
    Some(InteractiveSearchInput::Search(string_of(chars)))
}

/// Reads what an entered line asks for; nothing for a line that begins with `#` and
/// sets nothing that can be set.
pub fn parse_line(line: &str) -> (input: Option<InteractiveSearchInput>)
    ensures
        asks_for(input, line_meaning(line@)),
{
    let chars = chars_of(line);
    let marks = mark_whitespace(&chars);
    parse_marked_line(&chars, &marks)
}

/// What a session does after an input.
pub enum Step {
    /// The session ends.
    Quit,
    /// Nothing is searched; the user is told why.
    Notice(&'static str),
    /// Nothing is searched and nothing is said.
    Idle,
    /// The result of this number is opened.
    Open(u32),
    /// The query is searched with the session's options.
    Search(SearchTerm),
}

/// The sum of two numbers, or the largest number where the sum is larger.
pub open spec fn capped_sum(x: usize, y: usize) -> usize {
    if x + y <= usize::MAX {
        (x + y) as usize
    } else {
        usize::MAX
    }
}

/// The difference of two numbers, or zero where the second is larger.
pub open spec fn floored_difference(x: usize, y: usize) -> usize {
    if x >= y {
        (x - y) as usize
    } else {
        0
    }
}

/// The query of a session without the tilde that marks it as fuzzy.
pub open spec fn final_term(term: Seq<char>) -> Seq<char> {
    if term.len() > 0 && term[0] == '~' {
        term.subrange(1, term.len() as int)
    } else {
        term
    }
}

/// Whether the query of a session is marked as fuzzy.
pub open spec fn is_fuzzy_term(term: Seq<char>) -> bool {
    term.len() > 0 && term[0] == '~'
}

/// The query and the options of a session after an input.
pub open spec fn session_after(
    options: SearchOptions,
    term: Seq<char>,
    input: InteractiveSearchInput,
) -> (SearchOptions, Seq<char>) {
    let moved = match input {
        InteractiveSearchInput::BrowseForward => if term.len() == 0 {
            (options, term)
        } else {
            (SearchOptions { offset: capped_sum(options.offset, options.limit), ..options }, term)
        },
        InteractiveSearchInput::BrowseBackword => if term.len() == 0 {
            (options, term)
        } else {
            (
                SearchOptions {
                    offset: floored_difference(options.offset, options.limit),
                    ..options
                },
                term,
            )
        },
        InteractiveSearchInput::SearchOptionsUpdate(SearchOptionUpdate::Limit(limit)) => (
            SearchOptions { limit: limit, ..options },
            term,
        ),
        InteractiveSearchInput::SearchOptionsUpdate(SearchOptionUpdate::Distance(distance)) => (
            SearchOptions { distance: distance, ..options },
            term,
        ),
        InteractiveSearchInput::Search(query) => (SearchOptions { offset: 0, ..options }, query@),
        _ => (options, term),
    };
    if searches(options, term, input) {
        (SearchOptions { fuzzy: is_fuzzy_term(moved.1), ..moved.0 }, moved.1)
    } else {
        moved
    }
}

/// Whether an input leads to a search: a query does; browsing and changed options do
/// where there is a query already, and browsing back only from a later part of the hits.
pub open spec fn searches(options: SearchOptions, term: Seq<char>, input: InteractiveSearchInput) -> bool {
    match input {
        InteractiveSearchInput::Quit => false,
        InteractiveSearchInput::OpenPdf(_) => false,
        InteractiveSearchInput::Search(_) => true,
        InteractiveSearchInput::BrowseBackword => term.len() > 0 && options.offset > 0,
        _ => term.len() > 0,
    }
}

/// Whether `step` is what a session does after `input`.
pub open spec fn follows(
    step: Step,
    options: SearchOptions,
    term: Seq<char>,
    input: InteractiveSearchInput,
) -> bool {
    let after = session_after(options, term, input);
    if searches(options, term, input) {
        if after.0.fuzzy {
            step matches Step::Search(SearchTerm::Fuzzy(query, distance)) && query@ == final_term(
                after.1,
            ) && distance == after.0.distance
        } else {
            step matches Step::Search(SearchTerm::Exact(query)) && query@ == after.1
        }
    } else {
        match input {
            InteractiveSearchInput::Quit => step is Quit,
            InteractiveSearchInput::OpenPdf(number) => step matches Step::Open(n) && n == number,
            InteractiveSearchInput::BrowseBackword => if term.len() == 0 {
                step matches Step::Notice(text) && text@
                    == "No search term specified! Enter search term first..."@
            } else {
                step matches Step::Notice(text) && text@ == "Offset is already zero..."@
            },
            InteractiveSearchInput::BrowseForward => step matches Step::Notice(text) && text@
                == "No search term specified! Enter search term first..."@,
            _ => step is Idle,
        }
    }
}

/// The characters of `chars` without the first.
fn without_first(chars: &Vec<char>) -> (rest: Vec<char>)
    requires
        chars.len() > 0,
    ensures
        rest@ == chars@.subrange(1, chars.len() as int),
{
    let mut rest: Vec<char> = Vec::new();
    let mut k: usize = 1;
    while k < chars.len()
        invariant
            1 <= k <= chars.len(),
            rest@ == chars@.subrange(1, k as int),
        decreases chars.len() - k,
    {
        rest.push(chars[k]);
        k += 1;
    }
    rest
}

/// Takes an input of the user into a session: changes the session's options and query
/// as the input asks, and says what the session does next.
pub fn advance(options: &mut SearchOptions, search_term: &mut String, input: InteractiveSearchInput) -> (step:
    Step)
    ensures
        (*final(options), final(search_term)@) == session_after(
            *old(options),
            old(search_term)@,
            input,
        ),
        follows(step, *old(options), old(search_term)@, input),
{
    let no_term = chars_of(search_term.as_str()).len() == 0;
    match input {
        InteractiveSearchInput::Quit => {
            return Step::Quit;
        },
        InteractiveSearchInput::OpenPdf(number) => {
            return Step::Open(number);
        },
        InteractiveSearchInput::BrowseForward => {
            if no_term {
                return Step::Notice("No search term specified! Enter search term first...");
            }
            options.offset = if options.offset > usize::MAX - options.limit {
                usize::MAX
            } else {
                options.offset + options.limit
            };
        },
        InteractiveSearchInput::BrowseBackword => {
            if no_term {
                return Step::Notice("No search term specified! Enter search term first...");
            }
            if options.offset == 0 {
                return Step::Notice("Offset is already zero...");
            }
            options.offset = if options.offset >= options.limit {
                options.offset - options.limit
            } else {
                0
            };
        },
        InteractiveSearchInput::SearchOptionsUpdate(update) => {
            match update {
                SearchOptionUpdate::Limit(limit) => {
                    options.limit = limit;
                },
                SearchOptionUpdate::Distance(distance) => {
                    options.distance = distance;
                },
            }
            if no_term {
                return Step::Idle;
            }
        },
        InteractiveSearchInput::Search(term) => {
            options.offset = 0;
            *search_term = term;
        },
    }
    let chars = chars_of(search_term.as_str());
    if chars.len() > 0 && chars[0] == '~' {
        options.fuzzy = true;
        Step::Search(SearchTerm::Fuzzy(string_of(&without_first(&chars)), options.distance))
    } else {
        options.fuzzy = false;
        Step::Search(SearchTerm::Exact(search_term.clone()))
    }
}

/// The query for a search with the given options.
pub fn search_term_for(term: String, options: &SearchOptions) -> (query: SearchTerm)
    ensures
        options.fuzzy ==> query == SearchTerm::Fuzzy(term, options.distance),
        !options.fuzzy ==> query == SearchTerm::Exact(term),
{
    if options.fuzzy {
        SearchTerm::Fuzzy(term, options.distance)
    } else {
        SearchTerm::Exact(term)
    }
}

/// Goes one line back in the lines entered before: the place and the line before the
/// place `index`, if there is one.
pub fn history_up(history: &Vec<String>, index: usize) -> (found: Option<(usize, String)>)
    ensures
        0 < index <= history.len() ==> (found matches Some((place, line)) && place == index - 1
            && line@ == history@[index - 1]@),
        !(0 < index <= history.len()) ==> found is None,
{
    if index > 0 && index <= history.len() {
        Some((index - 1, history[index - 1].clone()))
    } else {
        None
    }
}

/// Goes one line forward in the lines entered before: the place and the line behind the
/// place `index`; behind the last line the line is empty; nothing behind that.
pub fn history_down(history: &Vec<String>, index: usize) -> (found: Option<(usize, String)>)
    ensures
        index + 1 < history.len() ==> (found matches Some((place, line)) && place == index + 1
            && line@ == history@[index + 1]@),
        index + 1 == history.len() ==> (found matches Some((place, line)) && place == index + 1
            && line@ == Seq::<char>::empty()),
        index >= history.len() ==> found is None,
{
    if index < history.len() {
        if index + 1 < history.len() {
            Some((index + 1, history[index + 1].clone()))
        } else {
            Some((index + 1, String::new()))
        }
    } else {
        None
    }
}

/// Whether `line` is the last of the lines entered before.
pub open spec fn is_last_line(history: Seq<String>, line: Seq<char>) -> bool {
    history.len() > 0 && history.last()@ == line
}

/// Puts an entered line behind the lines entered before, unless it is the same as the
/// last of them.
pub fn remember(history: &mut Vec<String>, line: &str)
    ensures
        is_last_line(old(history)@, line@) ==> final(history)@ == old(history)@,
        !is_last_line(old(history)@, line@) ==> final(history)@.len() == old(history)@.len() + 1
            && final(history)@.last()@ == line@ && final(history)@.drop_last() == old(history)@,
{
    let entered = line.to_owned();
    let n = history.len();
    if n == 0 || !(history[n - 1] == entered) {
        history.push(entered);
        assert(history@.drop_last() =~= old(history)@);
    }
}

/// A text with one more character before the cluster at place `pos`, or behind all
/// clusters where there are no more than `pos` of them.
pub open spec fn with_inserted(clusters: Seq<Seq<char>>, pos: int, c: char) -> Seq<char> {
    if 0 <= pos < clusters.len() {
        clusters.take(pos).flatten() + seq![c] + clusters.skip(pos).flatten()
    } else {
        clusters.flatten().push(c)
    }
}

/// Puts `c` into the given clusters, before the cluster at place `pos`.
pub fn insert_into_clusters(clusters: &Vec<Vec<char>>, pos: usize, c: char) -> (text: Vec<char>)
    ensures
        text@ == with_inserted(clusters_view(clusters@), pos as int, c),
{
    let ghost view = clusters_view(clusters@);
    let mut text: Vec<char> = Vec::new();
    let mut i: usize = 0;
    proof {
        assert(view.take(0) =~= Seq::<Seq<char>>::empty());
    }
    while i < clusters.len()
        invariant
            i <= clusters.len(),
            view == clusters_view(clusters@),
            i <= pos ==> text@ == view.take(i as int).flatten(),
            i > pos ==> text@ == view.take(pos as int).flatten() + seq![c] + view.subrange(
                pos as int,
                i as int,
            ).flatten(),
        decreases clusters.len() - i,
    {
        if i == pos {
            text.push(c);
            assert(view.subrange(pos as int, pos as int) =~= Seq::<Seq<char>>::empty());
        }
        append_chars(&mut text, &clusters[i]);
        proof {
            if i < pos {
                assert(view.take(i + 1) =~= view.take(i as int).push(view[i as int]));
                view.take(i as int).lemma_flatten_push(view[i as int]);
            } else {
                assert(view.subrange(pos as int, i + 1) =~= view.subrange(
                    pos as int,
                    i as int,
                ).push(view[i as int]));
                view.subrange(pos as int, i as int).lemma_flatten_push(view[i as int]);
            }
        }
        i += 1;
    }
    proof {
        assert(view.take(clusters.len() as int) =~= view);
        if pos < clusters.len() {
            assert(view.subrange(pos as int, clusters.len() as int) =~= view.skip(pos as int));
        }
    }
    if pos >= clusters.len() {
        text.push(c);
    }
    text
}

/// A text without its cluster at place `pos`.
pub open spec fn with_removed(clusters: Seq<Seq<char>>, pos: int) -> Seq<char> {
    if 0 <= pos < clusters.len() {
        clusters.take(pos).flatten() + clusters.skip(pos + 1).flatten()
    } else {
        clusters.flatten()
    }
}

/// Takes the cluster at place `pos` out of the given clusters.
pub fn remove_from_clusters(clusters: &Vec<Vec<char>>, pos: usize) -> (text: Vec<char>)
    ensures
        text@ == with_removed(clusters_view(clusters@), pos as int),
{
    let ghost view = clusters_view(clusters@);
    let mut text: Vec<char> = Vec::new();
    let mut i: usize = 0;
    proof {
        assert(view.take(0) =~= Seq::<Seq<char>>::empty());
    }
    while i < clusters.len()
        invariant
            i <= clusters.len(),
            view == clusters_view(clusters@),
            i <= pos ==> text@ == view.take(i as int).flatten(),
            i > pos ==> text@ == view.take(pos as int).flatten() + view.subrange(
                pos + 1,
                i as int,
            ).flatten(),
        decreases clusters.len() - i,
    {
        if i != pos {
            append_chars(&mut text, &clusters[i]);
        }
        proof {
            if i < pos {
                assert(view.take(i + 1) =~= view.take(i as int).push(view[i as int]));
                view.take(i as int).lemma_flatten_push(view[i as int]);
            } else if i == pos {
                assert(view.subrange(pos + 1, pos + 1) =~= Seq::<Seq<char>>::empty());
                assert(text@ =~= view.take(pos as int).flatten() + view.subrange(
                    pos + 1,
                    pos + 1,
                ).flatten());
            } else {
                assert(view.subrange(pos + 1, i + 1) =~= view.subrange(pos + 1, i as int).push(
                    view[i as int],
                ));
                view.subrange(pos + 1, i as int).lemma_flatten_push(view[i as int]);
            }
        }
        i += 1;
    }
    proof {
        assert(view.take(clusters.len() as int) =~= view);
        if pos < clusters.len() {
            assert(view.subrange(pos + 1, clusters.len() as int) =~= view.skip(pos + 1));
        }
    }
    text
}

/// Takes the grapheme cluster at place `pos` out of `input`.
pub fn remove_grapheme(input: &mut String, pos: usize)
    ensures
        final(input)@ == with_removed(grapheme_clusters(old(input)@), pos as int),
{
    let clusters = split_graphemes(input.as_str());
    let text = remove_from_clusters(&clusters, pos);
    *input = string_of(&text);
}

/// Puts `c` into `input`, before its grapheme cluster at place `pos`, or behind all of
/// them.
pub fn insert_grapheme(input: &mut String, pos: usize, c: char)
    ensures
        final(input)@ == with_inserted(grapheme_clusters(old(input)@), pos as int, c),
{
    let clusters = split_graphemes(input.as_str());
    let text = insert_into_clusters(&clusters, pos, c);
    *input = string_of(&text);
}

} // verus!
