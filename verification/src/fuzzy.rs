//! The word of a page that stands for a word of a fuzzy query, and its preview.

use crate::errors::LittSearchError;
use crate::grouped::{has_key, values_of, GroupView};
use crate::page_index::{text_between, PageIndex};
use crate::text::{
    append_chars, append_str, clusters_view, edit_distance, grapheme_clusters, is_substring,
    levenshtein_distance, replace_newlines, split_graphemes, str_contains, string_of,
    without_newlines,
};
use vstd::prelude::*;

verus! {

/// How far a word of a page is from a search term: 1 where the term occurs within the
/// word, their Levenshtein distance otherwise.
pub open spec fn match_distance(term: Seq<char>, word: Seq<char>) -> nat {
    if is_substring(term, word) {
        1
    } else {
        edit_distance(term, word)
    }
}

/// Whether the word at place `i` is nearest to the term: no word is nearer, and none
/// before it is as near.
pub open spec fn is_nearest(entries: Seq<GroupView<(u32, u32)>>, term: Seq<char>, i: int) -> bool {
    &&& 0 <= i < entries.len()
    &&& forall|j: int|
        0 <= j < entries.len() ==> match_distance(term, entries[i].key) <= match_distance(
            term,
            (#[trigger] entries[j]).key,
        )
    &&& forall|j: int|
        0 <= j < i ==> match_distance(term, entries[i].key) < match_distance(
            term,
            (#[trigger] entries[j]).key,
        )
}

/// The place of the word nearest to the term, in an index that has words.
pub open spec fn nearest_word(entries: Seq<GroupView<(u32, u32)>>, term: Seq<char>) -> int {
    choose|i: int| is_nearest(entries, term, i)
}

/// A word of a page that stands for a search term, with the first place where it stands.
pub struct FuzzyMatch {
    pub word: Seq<char>,
    pub start: u32,
    pub end: u32,
}

/// The word of a page that stands for a search term: the term itself where the page has
/// it; otherwise the word nearest to the term, if it is no farther from it than
/// `distance`.
pub open spec fn fuzzy_match(
    entries: Seq<GroupView<(u32, u32)>>,
    term: Seq<char>,
    distance: nat,
) -> Option<FuzzyMatch> {
    if has_key(entries, term) {
        let first = values_of(entries, term)[0];
        Some(FuzzyMatch { word: term, start: first.0, end: first.1 })
    } else if entries.len() > 0 && match_distance(term, entries[nearest_word(entries, term)].key)
        <= distance {
        let nearest = entries[nearest_word(entries, term)];
        Some(FuzzyMatch { word: nearest.key, start: nearest.values[0].0, end: nearest.values[0].1 })
    } else {
        None
    }
}

/// Only one word is nearest to a term.
pub proof fn lemma_nearest_is_unique(
    entries: Seq<GroupView<(u32, u32)>>,
    term: Seq<char>,
    i: int,
    j: int,
)
    requires
        is_nearest(entries, term, i),
        is_nearest(entries, term, j),
    ensures
        i == j,
{
    if i < j {
        assert(match_distance(term, entries[j].key) < match_distance(term, entries[i].key));
    } else if j < i {
        assert(match_distance(term, entries[i].key) < match_distance(term, entries[j].key));
    }
}

/// Finds the word of a page that stands for `term`, with the first place where it
/// stands.
pub fn get_fuzzy_match(term: &str, distance: u8, pindex: &PageIndex) -> (result: Result<
    (String, u32, u32),
    LittSearchError,
>)
    ensures
        fuzzy_match(pindex@, term@, distance as nat) matches Some(found) ==> (result matches Ok(
            (word, start, end),
        ) && word@ == found.word && start == found.start && end == found.end),
        fuzzy_match(pindex@, term@, distance as nat) is None ==> (result matches Err(e)
            && e.is_search_error(""@)),
{
    let n = pindex.len();
    match pindex.find(term) {
        Some(i) => {
            let entry = pindex.entry(i);
            let first = entry.values[0];
            return Ok((term.to_owned(), first.0, first.1));
        },
        None => {},
    }
    if n == 0 {
        return Err(LittSearchError::search_error(""));
    }
    let mut best: usize = 0;
    let first_word = pindex.entry(0);
    let mut best_distance: usize = if str_contains(first_word.key.as_str(), term) {
        1
    } else {
        levenshtein_distance(term, first_word.key.as_str())
    };
    let mut i: usize = 1;
    while i < n
        invariant
            1 <= i <= n,
            n == pindex@.len(),
            is_nearest(pindex@.take(i as int), term@, best as int),
            best_distance == match_distance(term@, pindex@[best as int].key),
        decreases n - i,
    {
        let entry = pindex.entry(i);
        let d = if str_contains(entry.key.as_str(), term) {
            1
        } else {
            levenshtein_distance(term, entry.key.as_str())
        };
        let ghost old_best = best;
        if d < best_distance {
            best = i;
            best_distance = d;
        }
        proof {
            let before = pindex@.take(i as int);
            let now = pindex@.take(i + 1);
            assert forall|j: int| 0 <= j < now.len() implies match_distance(term@, now[best as int].key)
                <= match_distance(term@, (#[trigger] now[j]).key) by {
                if j < i {
                    assert(before[j] == now[j]);
                }
            }
            assert forall|j: int| 0 <= j < best implies match_distance(term@, now[best as int].key)
                < match_distance(term@, (#[trigger] now[j]).key) by {
                assert(before[j] == now[j]);
            }
        }
        i += 1;
    }
    proof {
        assert(pindex@.take(n as int) =~= pindex@);
        lemma_nearest_is_unique(pindex@, term@, best as int, nearest_word(pindex@, term@));
    }
    if best_distance <= distance as usize {
        let entry = pindex.entry(best);
        let first = entry.values[0];
        Ok((entry.key.clone(), first.0, first.1))
    } else {
        Err(LittSearchError::search_error(""))
    }
}

/// The smaller of two offsets.
pub open spec fn least(x: int, y: int) -> int {
    if x <= y {
        x
    } else {
        y
    }
}

/// The larger of two offsets.
pub open spec fn most(x: int, y: int) -> int {
    if x <= y {
        y
    } else {
        x
    }
}

/// Where the preview of a word begins on a page of `n` clusters: 20 clusters before the
/// word, or at the page's start.
pub open spec fn window_start(n: int, start: int) -> int {
    least(most(0, start - 20), n)
}

/// Where the preview of a word ends on a page of `n` clusters: 20 clusters behind the
/// word, or at the page's end.
pub open spec fn window_end(n: int, start: int, end: int) -> int {
    most(window_start(n, start), least(end + 20, n))
}

/// The preview of a word found on a page: the page's text from 20 clusters before the
/// word to 20 clusters behind it, with the word between two pairs of asterisks, three
/// dots before and behind, and a space for every line feed.
pub open spec fn fuzzy_preview_text(clusters: Seq<Seq<char>>, found: FuzzyMatch) -> Seq<char> {
    let n = clusters.len() as int;
    let low = window_start(n, found.start as int);
    let high = window_end(n, found.start as int, found.end as int);
    let word_start = most(low, least(found.start as int, high));
    let word_end = most(word_start, least(found.end as int, high));
    without_newlines(
        "..."@ + text_between(clusters, low, word_start) + "**"@ + found.word + "**"@
            + text_between(clusters, word_end, high) + "..."@,
    )
}

/// Puts the clusters from `from` up to `to` behind the characters of `buffer`.
pub fn append_clusters(buffer: &mut Vec<char>, clusters: &Vec<Vec<char>>, from: usize, to: usize)
    requires
        from <= to <= clusters.len(),
    ensures
        final(buffer)@ == old(buffer)@ + text_between(
            clusters_view(clusters@),
            from as int,
            to as int,
        ),
{
    let ghost view = clusters_view(clusters@);
    let mut k: usize = from;
    proof {
        assert(view.subrange(from as int, from as int) =~= Seq::<Seq<char>>::empty());
        assert(buffer@ =~= old(buffer)@ + text_between(view, from as int, from as int));
    }
    while k < to
        invariant
            from <= k <= to <= clusters.len(),
            view == clusters_view(clusters@),
            buffer@ == old(buffer)@ + text_between(view, from as int, k as int),
        decreases to - k,
    {
        append_chars(buffer, &clusters[k]);
        proof {
            assert(view.subrange(from as int, k + 1) =~= view.subrange(from as int, k as int).push(
                view[k as int],
            ));
            view.subrange(from as int, k as int).lemma_flatten_push(view[k as int]);
            assert(buffer@ =~= old(buffer)@ + text_between(view, from as int, k + 1));
        }
        k += 1;
    }
}

/// Builds the preview of a word that was found on a page, from the page's clusters.
pub fn fuzzy_preview(clusters: &Vec<Vec<char>>, word: &str, start: u32, end: u32) -> (preview:
    String)
    ensures
        preview@ == fuzzy_preview_text(
            clusters_view(clusters@),
            FuzzyMatch { word: word@, start: start, end: end },
        ),
{
    let n = clusters.len();
    let low: usize = if start < 20 {
        0
    } else if (start - 20) as usize <= n {
        (start - 20) as usize
    } else {
        n
    };
    let reach: u64 = end as u64 + 20;
    let high: usize = if reach <= n as u64 {
        if reach as usize >= low {
            reach as usize
        } else {
            low
        }
    } else {
        n
    };
    let word_start: usize = if start as usize <= high {
        if start as usize >= low {
            start as usize
        } else {
            low
        }
    } else {
        high
    };
    let word_end: usize = if end as usize <= high {
        if end as usize >= word_start {
            end as usize
        } else {
            word_start
        }
    } else {
        high
    };
    let mut buffer: Vec<char> = Vec::new();
    append_str(&mut buffer, "...");
    append_clusters(&mut buffer, clusters, low, word_start);
    append_str(&mut buffer, "**");
    append_str(&mut buffer, word);
    append_str(&mut buffer, "**");
    append_clusters(&mut buffer, clusters, word_end, high);
    append_str(&mut buffer, "...");
    let flat = replace_newlines(&buffer);
    string_of(&flat)
}

/// The preview of a page for one word of a fuzzy query: where a word of the page stands
/// for `term`, the preview of that word, together with the word.
pub fn get_fuzzy_preview(term: &str, distance: u8, body: &str, pindex: &PageIndex) -> (result:
    Result<(String, String), LittSearchError>)
    ensures
        fuzzy_match(pindex@, term@, distance as nat) matches Some(found) ==> (result matches Ok(
            (preview, word),
        ) && preview@ == fuzzy_preview_text(grapheme_clusters(body@), found) && word@
            == found.word),
        fuzzy_match(pindex@, term@, distance as nat) is None ==> (result matches Err(e)
            && e.is_search_error(""@)),
{
    match get_fuzzy_match(term, distance, pindex) {
        Ok((word, start, end)) => {
            let clusters = split_graphemes(body);
            let preview = fuzzy_preview(&clusters, word.as_str(), start, end);
            Ok((preview, word))
        },
        Err(e) => Err(e),
    }
}

} // verus!
