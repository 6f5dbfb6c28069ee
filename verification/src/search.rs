//! The search: how the store is asked, how its hits become results, and the previews of
//! the pages found.

use crate::errors::LittSearchError;
use crate::fuzzy::{fuzzy_match, fuzzy_preview_text, get_fuzzy_preview};
use crate::grouped::{record, GroupView, Grouped};
use crate::index::Index;
use crate::page_index::PageIndex;
use crate::schema::{Field, SearchSchema};
use crate::snippet::{highlighted_text, Snippet};
use crate::text::{
    append_decimal, append_str, chars_of, decimal_digits, grapheme_clusters, is_marked,
    mark_whitespace, string_of, strings_view, whitespace_marks,
};
use vstd::prelude::*;

verus! {

/// What is searched for: a query whose words may be off by up to a number of edits, or
/// a query to be taken as it stands.
pub enum SearchTerm {
    Fuzzy(String, u8),
    Exact(String),
}

/// One page that a search has found.
#[derive(Debug, Clone, Copy, PartialEq, Eq, Structural)]
pub struct SearchResult {
    /// The page's number within its document, counted from 1.
    pub page: u32,
    /// The page's relevance, as the bits of a single-precision number.
    pub score_bits: u32,
    /// The segment of the store that holds the page.
    pub segment_ord: u32,
    /// The page's number within its segment.
    pub doc_id: u32,
}

impl SearchResult {
    /// The result for a page with the given number and relevance, at the given place of
    /// the store.
    pub fn new(page: u32, score_bits: u32, segment_ord: u32, doc_id: u32) -> (result: Self)
        ensures
            result == (SearchResult { page, score_bits, segment_ord, doc_id }),
    {
        Self { page, score_bits, segment_ord, doc_id }
    }
}

/// The pages that a search has found, by the titles of their documents. The titles stand
/// in the order of their first pages, the pages of a title in the order in which they
/// were found.
pub type SearchResults = Grouped<SearchResult>;

/// The words of `text` from `pos` on, when the word being read began at `start` and has
/// no marked character before `pos`. Words are what stands between marked characters;
/// none is empty.
pub open spec fn words_from(text: Seq<char>, marks: Seq<bool>, start: int, pos: int) -> Seq<
    Seq<char>,
>
    decreases text.len() - pos,
{
    if pos < 0 || pos >= text.len() {
        if 0 <= start < text.len() {
            seq![text.subrange(start, text.len() as int)]
        } else {
            Seq::empty()
        }
    } else if is_marked(marks, pos) {
        if start < pos {
            seq![text.subrange(start, pos)] + words_from(text, marks, pos + 1, pos + 1)
        } else {
            words_from(text, marks, pos + 1, pos + 1)
        }
    } else {
        words_from(text, marks, start, pos + 1)
    }
}

/// The words of `text`: what stands between its white space.
pub open spec fn words_of(text: Seq<char>) -> Seq<Seq<char>> {
    words_from(text, whitespace_marks(text), 0, 0)
}

/// A word without the double quote that it begins with, if it begins with one.
pub open spec fn without_leading_quote(word: Seq<char>) -> Seq<char> {
    if word.len() > 0 && word[0] == '"' {
        word.subrange(1, word.len() as int)
    } else {
        word
    }
}

/// The first word of a query, without a leading double quote; the empty text for a
/// query without words.
pub open spec fn first_term(query: Seq<char>) -> Seq<char> {
    if words_of(query).len() > 0 {
        without_leading_quote(words_of(query)[0])
    } else {
        Seq::empty()
    }
}

/// Cuts `text` into its words.
pub fn split_words(text: &str) -> (words: Vec<String>)
    ensures
        strings_view(words@) == words_of(text@),
{
    let chars = chars_of(text);
    let marks = mark_whitespace(&chars);
    split_marked(&chars, &marks)
}

/// Cuts `chars` into the words that stand between its marked characters.
pub fn split_marked(chars: &Vec<char>, marks: &Vec<bool>) -> (words: Vec<String>)
    ensures
        strings_view(words@) == words_from(chars@, marks@, 0, 0),
{
    let n = chars.len();
    let mut words: Vec<String> = Vec::new();
    let mut word: Vec<char> = Vec::new();
    let mut start: usize = 0;
    let mut pos: usize = 0;
    let ghost mut done: Seq<Seq<char>> = Seq::empty();
    proof {
        assert(done + words_from(chars@, marks@, 0, 0) =~= words_from(chars@, marks@, 0, 0));
        assert(strings_view(words@) =~= done);
    }
    while pos < n
        invariant
            n == chars.len(),
            start <= pos <= n,
            word@ == chars@.subrange(start as int, pos as int),
            words_from(chars@, marks@, 0, 0) == done + words_from(
                chars@,
                marks@,
                start as int,
                pos as int,
            ),
            strings_view(words@) == done,
        decreases n - pos,
    {
        if pos < marks.len() && marks[pos] {
            if start < pos {
                let found = string_of(&word);
                proof {
                    assert(done + (seq![found@] + words_from(chars@, marks@, pos + 1, pos + 1))
                        =~= done.push(found@) + words_from(chars@, marks@, pos + 1, pos + 1));
                    assert(strings_view(words@.push(found)) =~= done.push(found@));
                    done = done.push(found@);
                }
                words.push(found);
                word = Vec::new();
            }
            pos += 1;
            start = pos;
        } else {
            word.push(chars[pos]);
            pos += 1;
        }
    }
    if start < n {
        let found = string_of(&word);
        proof {
            assert(strings_view(words@.push(found)) =~= done.push(found@));
            assert(done + seq![found@] =~= done.push(found@));
        }
        words.push(found);
    } else {
        proof {
            assert(done + Seq::<Seq<char>>::empty() =~= done);
        }
    }
    words
}

/// The first word of a query, without a leading double quote: the word that a viewer
/// is told to look for on the page.
pub fn get_first_term(query: &str) -> (term: String)
    ensures
        term@ == first_term(query@),
{
    let words = split_words(query);
    if words.len() == 0 {
        return String::new();
    }
    let first = chars_of(words[0].as_str());
    assert(first@ == words_of(query@)[0]) by {
        assert(strings_view(words@)[0] == words@[0]@);
    }
    if first.len() > 0 && first[0] == '"' {
        let mut rest: Vec<char> = Vec::new();
        let mut k: usize = 1;
        while k < first.len()
            invariant
                1 <= k <= first.len(),
                rest@ == first@.subrange(1, k as int),
            decreases first.len() - k,
        {
            rest.push(first[k]);
            k += 1;
        }
        string_of(&rest)
    } else {
        string_of(&first)
    }
}

/// What the store holds in one field of a page.
pub enum FieldValue {
    Text(String),
    Number(u64),
    Other,
}

/// The fields of a page as the store hands them out; a field may be missing.
pub struct StoredPage {
    pub title: Option<FieldValue>,
    pub path: Option<FieldValue>,
    pub page: Option<FieldValue>,
}

/// One page that the store has found for a query: its relevance, where it lies in the
/// store, and its fields, or the store's message where they could not be read.
pub struct Hit {
    pub score_bits: u32,
    pub segment_ord: u32,
    pub doc_id: u32,
    pub document: Result<StoredPage, String>,
}

/// Why a hit cannot be taken into the results.
pub enum HitFault {
    Unreadable(Seq<char>),
    TitleMissing,
    TitleNotText,
    PageMissing,
    PageNotNumber,
    PageTooBig(u64),
}

/// The text with which a fault of a field is reported.
pub open spec fn fault_text(fault: HitFault) -> Seq<char> {
    match fault {
        HitFault::Unreadable(message) => message,
        HitFault::TitleMissing => "Fatal: Field \"title\" not found!"@,
        HitFault::TitleNotText => "Fatal: Field \"title\" could not be read as text!"@,
        HitFault::PageMissing => "Fatal: Field \"page\" not found!"@,
        HitFault::PageNotNumber => "Fatal: Field \"page\" not a number!"@,
        HitFault::PageTooBig(page) => "Fatal: Field \"page\" ("@ + decimal_digits(page as nat)
            + ") is bigger than u32!"@,
    }
}

/// Whether `error` reports `fault`: what the store said where the page could not be
/// read, a search error with the fault's text otherwise.
pub open spec fn reports(error: LittSearchError, fault: HitFault) -> bool {
    match fault {
        HitFault::Unreadable(message) => error matches LittSearchError::TantivyError(m) && m@
            == message,
        _ => error.is_search_error(fault_text(fault)),
    }
}

/// A hit's title and its entry in the results, or why it has none. The title is looked
/// at before the page number.
pub open spec fn checked_hit(hit: Hit) -> Result<(Seq<char>, SearchResult), HitFault> {
    match hit.document {
        Err(message) => Err(HitFault::Unreadable(message@)),
        Ok(stored) => match stored.title {
            None => Err(HitFault::TitleMissing),
            Some(FieldValue::Text(title)) => match stored.page {
                None => Err(HitFault::PageMissing),
                Some(FieldValue::Number(page)) => if page <= u32::MAX {
                    Ok(
                        (
                            title@,
                            SearchResult {
                                page: page as u32,
                                score_bits: hit.score_bits,
                                segment_ord: hit.segment_ord,
                                doc_id: hit.doc_id,
                            },
                        ),
                    )
                } else {
                    Err(HitFault::PageTooBig(page))
                },
                Some(_) => Err(HitFault::PageNotNumber),
            },
            Some(_) => Err(HitFault::TitleNotText),
        },
    }
}

/// The results made of some hits: the hits in their order, each under its title; or the
/// fault of the first hit that has one.
pub open spec fn assembled(hits: Seq<Hit>) -> Result<Seq<GroupView<SearchResult>>, HitFault>
    decreases hits.len(),
{
    if hits.len() == 0 {
        Ok(Seq::empty())
    } else {
        match assembled(hits.drop_last()) {
            Err(fault) => Err(fault),
            Ok(groups) => match checked_hit(hits.last()) {
                Err(fault) => Err(fault),
                Ok((title, result)) => Ok(record(groups, title, result)),
            },
        }
    }
}

/// Looks at the fields of one hit.
pub fn check_hit(hit: &Hit) -> (result: Result<(String, SearchResult), LittSearchError>)
    ensures
        checked_hit(*hit) matches Ok((title, entry)) ==> (result matches Ok((t, r)) && t@ == title
            && r == entry),
        checked_hit(*hit) matches Err(fault) ==> (result matches Err(e) && reports(e, fault)),
{
    let stored = match &hit.document {
        Err(message) => {
            return Err(LittSearchError::TantivyError(message.clone()));
        },
        Ok(stored) => stored,
    };
    let title = match &stored.title {
        None => {
            return Err(LittSearchError::search_error("Fatal: Field \"title\" not found!"));
        },
        Some(FieldValue::Text(title)) => title,
        Some(_) => {
            return Err(
                LittSearchError::search_error("Fatal: Field \"title\" could not be read as text!"),
            );
        },
    };
    let page = match &stored.page {
        None => {
            return Err(LittSearchError::search_error("Fatal: Field \"page\" not found!"));
        },
        Some(FieldValue::Number(page)) => *page,
        Some(_) => {
            return Err(LittSearchError::search_error("Fatal: Field \"page\" not a number!"));
        },
    };
    if page > 0xffff_ffff {
        let mut text: Vec<char> = Vec::new();
        append_str(&mut text, "Fatal: Field \"page\" (");
        append_decimal(&mut text, page);
        append_str(&mut text, ") is bigger than u32!");
        let text = string_of(&text);
        return Err(LittSearchError::search_error(text.as_str()));
    }
    Ok((title.clone(), SearchResult::new(page as u32, hit.score_bits, hit.segment_ord, hit.doc_id)))
}

/// How the store is to be asked: the query's text, whether the words of the page text
/// may be off by some edits, and which part of the hits is wanted.
pub struct QueryPlan {
    pub text: String,
    pub fuzzy: Option<FuzzyField>,
    pub offset: usize,
    pub limit: usize,
}

/// How far a word of the page text may be from a word of the query and still match.
#[derive(Debug, Clone, Copy, PartialEq, Eq, Structural)]
pub struct FuzzyField {
    /// The field whose words may be off.
    pub field: Field,
    /// Whether a word matches that begins with a word near the query's.
    pub prefix: bool,
    /// The number of edits allowed.
    pub distance: u8,
    /// Whether two neighbouring characters that changed places count as one edit.
    pub transposition_cost_one: bool,
}

/// The search over one index.
pub struct Search {
    pub index: Index,
    pub schema: SearchSchema,
}

impl Search {
    /// The search over `index`, whose pages have the fields of `schema`.
    pub fn new(index: Index, schema: SearchSchema) -> (search: Self)
        ensures
            search.index == index,
            search.schema == schema,
    {
        Self { index, schema }
    }

    /// Says how the store is to be asked for `input`. An exact query is asked as it
    /// stands. A fuzzy query is asked with the same text, and the words of the body field
    /// may then be off by the query's distance, match as a prefix, and count swapped
    /// neighbours as one edit.
    pub fn query_plan(&self, input: &SearchTerm, offset: usize, limit: usize) -> (result: Result<
        QueryPlan,
        LittSearchError,
    >)
        requires
            limit >= 1,
        ensures
            !(self.index@ is Reading) ==> (result matches Err(e) && e.is_state_error("Reading"@)),
            self.index@ is Reading ==> (result matches Ok(plan) && plan.offset == offset
                && plan.limit == limit && match *input {
                SearchTerm::Exact(term) => plan.text@ == term@ && plan.fuzzy is None,
                SearchTerm::Fuzzy(term, distance) => plan.text@ == term@ && plan.fuzzy == Some(
                    FuzzyField {
                        field: self.schema.body,
                        prefix: true,
                        distance: distance,
                        transposition_cost_one: true,
                    },
                ),
            }),
    {
        match self.index.searcher() {
            Err(e) => {
                return Err(LittSearchError::LittIndexError(e));
            },
            Ok(_) => {},
        }
        match input {
            SearchTerm::Exact(term) => Ok(
                QueryPlan { text: term.clone(), fuzzy: None, offset, limit },
            ),
            SearchTerm::Fuzzy(term, distance) => Ok(
                QueryPlan {
                    text: term.clone(),
                    fuzzy: Some(
                        FuzzyField {
                            field: self.schema.body,
                            prefix: true,
                            distance: *distance,
                            transposition_cost_one: true,
                        },
                    ),
                    offset,
                    limit,
                },
            ),
        }
    }

    /// Makes the results of the hits that the store has found, in the store's order:
    /// every hit stands under the title of its document, behind the earlier hits of that
    /// title. The first hit with a faulty field ends the search with its error.
    pub fn search(&self, hits: &Vec<Hit>) -> (result: Result<SearchResults, LittSearchError>)
        ensures
            !(self.index@ is Reading) ==> (result matches Err(e) && e.is_state_error("Reading"@)),
            self.index@ is Reading ==> match assembled(hits@) {
                Ok(groups) => result matches Ok(results) && results@ == groups,
                Err(fault) => result matches Err(e) && reports(e, fault),
            },
    {
        match self.index.searcher() {
            Err(e) => {
                return Err(LittSearchError::LittIndexError(e));
            },
            Ok(_) => {},
        }
        let mut results: SearchResults = Grouped::new();
        let mut i: usize = 0;
        proof {
            assert(hits@.take(0) =~= Seq::<Hit>::empty());
        }
        while i < hits.len()
            invariant
                i <= hits.len(),
                self.index@ is Reading,
                assembled(hits@.take(i as int)) == Ok::<Seq<GroupView<SearchResult>>, HitFault>(
                    results@,
                ),
            decreases hits.len() - i,
        {
            proof {
                assert(hits@.take(i + 1).drop_last() =~= hits@.take(i as int));
            }
            match check_hit(&hits[i]) {
                Err(e) => {
                    proof {
                        lemma_fault_stays(hits@, i + 1);
                    }
                    return Err(e);
                },
                Ok((title, entry)) => {
                    results.insert(title, entry);
                },
            }
            i += 1;
        }
        proof {
            assert(hits@.take(hits.len() as int) =~= hits@);
        }
        Ok(results)
    }
}

/// The preview that says that no word of a page stands for a fuzzy query.
pub open spec fn no_preview_text() -> Seq<char> {
    "[fuzzy match] No preview. We're sry."@
}

/// The preview of a page for the first word of a fuzzy query for which a word of the
/// page stands, together with that word of the page.
pub open spec fn first_preview(
    clusters: Seq<Seq<char>>,
    entries: Seq<GroupView<(u32, u32)>>,
    terms: Seq<Seq<char>>,
    distance: nat,
) -> Option<(Seq<char>, Seq<char>)>
    decreases terms.len(),
{
    if terms.len() == 0 {
        None
    } else {
        match fuzzy_match(entries, terms[0], distance) {
            Some(found) => Some((fuzzy_preview_text(clusters, found), found.word)),
            None => first_preview(clusters, entries, terms.drop_first(), distance),
        }
    }
}

/// The preview of a page for a fuzzy query, with the word that was found on the page;
/// where the page's words are not at hand or none stands for a word of the query, the
/// preview says so and the word is empty.
pub open spec fn fuzzy_preview_of(
    text: Seq<char>,
    entries: Option<Seq<GroupView<(u32, u32)>>>,
    term: Seq<char>,
    distance: nat,
) -> (Seq<char>, Seq<char>) {
    match entries {
        None => (no_preview_text(), Seq::empty()),
        Some(words) => match first_preview(
            grapheme_clusters(text),
            words,
            words_of(term),
            distance,
        ) {
            Some(found) => found,
            None => (no_preview_text(), Seq::empty()),
        },
    }
}

/// The path of the file that holds a page's text, or why the page has none.
pub open spec fn checked_path(stored: StoredPage) -> Result<Seq<char>, Seq<char>> {
    match stored.path {
        None => Err("Fatal: Field \"path\" not found!"@),
        Some(FieldValue::Text(path)) => Ok(path@),
        Some(_) => Err("Fatal: Field \"path\" could not be read as text!"@),
    }
}

impl Search {
    /// The path of the file that holds the text of a page that was found.
    pub fn page_path(&self, stored: &StoredPage) -> (result: Result<String, LittSearchError>)
        ensures
            !(self.index@ is Reading) ==> (result matches Err(e) && e.is_state_error("Reading"@)),
            self.index@ is Reading ==> match checked_path(*stored) {
                Ok(path) => result matches Ok(found) && found@ == path,
                Err(text) => result matches Err(e) && e.is_search_error(text),
            },
    {
        match self.index.searcher() {
            Err(e) => {
                return Err(LittSearchError::LittIndexError(e));
            },
            Ok(_) => {},
        }
        match &stored.path {
            None => Err(LittSearchError::search_error("Fatal: Field \"path\" not found!")),
            Some(FieldValue::Text(path)) => Ok(path.clone()),
            Some(_) => Err(
                LittSearchError::search_error("Fatal: Field \"path\" could not be read as text!"),
            ),
        }
    }

    /// The preview of a page for an exact query, made of the snippet that the store cut
    /// from the page's text, together with the query's first word.
    pub fn get_preview_from_query(&self, term: &str, snippet: &Snippet) -> (result: (
        String,
        String,
    ))
        ensures
            result.0@ == highlighted_text(snippet.text(), snippet.runs()),
            result.1@ == first_term(term@),
    {
        (snippet.highlight(), get_first_term(term))
    }

    /// The preview of a page for a fuzzy query: that of the first word of the query for
    /// which a word of the page stands.
    pub fn get_fuzzy_previews(
        &self,
        term: &str,
        distance: u8,
        text: &str,
        page_index: Option<&PageIndex>,
    ) -> (result: (String, String))
        ensures
            result.0@ == fuzzy_preview_of(
                text@,
                match page_index {
                    Some(words) => Some(words@),
                    None => None,
                },
                term@,
                distance as nat,
            ).0,
            result.1@ == fuzzy_preview_of(
                text@,
                match page_index {
                    Some(words) => Some(words@),
                    None => None,
                },
                term@,
                distance as nat,
            ).1,
    {
        match page_index {
            None => {},
            Some(words) => {
                let terms = split_words(term);
                let mut i: usize = 0;
                proof {
                    assert(strings_view(terms@).skip(0) =~= strings_view(terms@));
                }
                while i < terms.len()
                    invariant
                        i <= terms.len(),
                        page_index == Some(words),
                        strings_view(terms@) == words_of(term@),
                        first_preview(
                            grapheme_clusters(text@),
                            words@,
                            strings_view(terms@).skip(i as int),
                            distance as nat,
                        ) == first_preview(
                            grapheme_clusters(text@),
                            words@,
                            strings_view(terms@),
                            distance as nat,
                        ),
                    decreases terms.len() - i,
                {
                    proof {
                        let rest = strings_view(terms@).skip(i as int);
                        assert(rest[0] == terms@[i as int]@);
                        assert(rest.drop_first() =~= strings_view(terms@).skip(i + 1));
                    }
                    match get_fuzzy_preview(terms[i].as_str(), distance, text, words) {
                        Ok(found) => {
                            return found;
                        },
                        Err(_) => {},
                    }
                    i += 1;
                }
            },
        }
        proof {
            reveal_strlit("");
            assert(""@ =~= Seq::<char>::empty());
        }
        ("[fuzzy match] No preview. We're sry.".to_owned(), "".to_owned())
    }

    /// The preview of a page for a query, with the word that a viewer is to look for on
    /// the page. For a fuzzy query `page_index` holds the page's words, where they could
    /// be read; for an exact query `snippet` is what the store cut from the page's text,
    /// or the error with which it refused.
    pub fn get_preview(
        &self,
        search_term: &SearchTerm,
        text: &str,
        page_index: Option<&PageIndex>,
        snippet: Result<Snippet, LittSearchError>,
    ) -> (result: Result<(String, String), LittSearchError>)
        ensures
            !(self.index@ is Reading) ==> (result matches Err(e) && e.is_state_error("Reading"@)),
            self.index@ is Reading ==> match *search_term {
                SearchTerm::Fuzzy(term, distance) => result matches Ok((preview, word)) && (
                preview@, word@) == fuzzy_preview_of(
                    text@,
                    match page_index {
                        Some(words) => Some(words@),
                        None => None,
                    },
                    term@,
                    distance as nat,
                ),
                SearchTerm::Exact(term) => match snippet {
                    Ok(cut) => result matches Ok((preview, word)) && preview@ == highlighted_text(
                        cut.text(),
                        cut.runs(),
                    ) && word@ == first_term(term@),
                    Err(refused) => result == Err::<(String, String), LittSearchError>(refused),
                },
            },
    {
        match self.index.searcher() {
            Err(e) => {
                return Err(LittSearchError::LittIndexError(e));
            },
            Ok(_) => {},
        }
        match search_term {
            SearchTerm::Fuzzy(term, distance) => Ok(
                self.get_fuzzy_previews(term.as_str(), *distance, text, page_index),
            ),
            SearchTerm::Exact(term) => match snippet {
                Ok(cut) => Ok(self.get_preview_from_query(term.as_str(), &cut)),
                Err(refused) => Err(refused),
            },
        }
    }
}

/// A fault among the first hits is the fault of all hits.
pub proof fn lemma_fault_stays(hits: Seq<Hit>, k: int)
    requires
        0 <= k <= hits.len(),
        assembled(hits.take(k)) is Err,
    ensures
        assembled(hits) == assembled(hits.take(k)),
    decreases hits.len() - k,
{
    if k < hits.len() {
        assert(hits.take(k + 1).drop_last() =~= hits.take(k));
        lemma_fault_stays(hits, k + 1);
    } else {
        assert(hits.take(k) =~= hits);
    }
}

} // verus!
