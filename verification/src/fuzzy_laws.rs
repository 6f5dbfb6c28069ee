//! What holds of the preview of a fuzzy match: it shows the word that was found, marked.

use crate::fuzzy::{fuzzy_preview_text, least, most, window_end, window_start, FuzzyMatch};
use crate::page_index::text_between;
use crate::text::{is_substring, without_newlines};
use vstd::prelude::*;

verus! {

/// The word of a preview between its two pairs of asterisks.
pub open spec fn marked_word(word: Seq<char>) -> Seq<char> {
    "**"@ + without_newlines(word) + "**"@
}

/// Line feeds are replaced in every part of a text by itself.
pub proof fn lemma_without_newlines_of_parts(a: Seq<char>, b: Seq<char>)
    ensures
        without_newlines(a + b) == without_newlines(a) + without_newlines(b),
{
    assert(without_newlines(a + b) =~= without_newlines(a) + without_newlines(b));
}

/// The preview of a word found on a page shows the word between two pairs of asterisks,
/// wherever on the page the word was found.
pub proof fn lemma_preview_shows_marked_word(clusters: Seq<Seq<char>>, found: FuzzyMatch)
    ensures
        is_substring(marked_word(found.word), fuzzy_preview_text(clusters, found)),
{
    let n = clusters.len() as int;
    let low = window_start(n, found.start as int);
    let high = window_end(n, found.start as int, found.end as int);
    let word_start = most(low, least(found.start as int, high));
    let word_end = most(word_start, least(found.end as int, high));
    let before = "..."@ + text_between(clusters, low, word_start);
    let behind = text_between(clusters, word_end, high) + "..."@;
    let whole = "..."@ + text_between(clusters, low, word_start) + "**"@ + found.word + "**"@
        + text_between(clusters, word_end, high) + "..."@;
    assert(whole =~= before + ("**"@ + found.word + "**"@) + behind);
    lemma_without_newlines_of_parts(before + ("**"@ + found.word + "**"@), behind);
    lemma_without_newlines_of_parts(before, "**"@ + found.word + "**"@);
    lemma_without_newlines_of_parts("**"@ + found.word, "**"@);
    lemma_without_newlines_of_parts("**"@, found.word);
    reveal_strlit("**");
    assert(without_newlines("**"@) =~= "**"@);
    let preview = fuzzy_preview_text(clusters, found);
    let marked = marked_word(found.word);
    let at = without_newlines(before).len() as int;
    assert(preview =~= without_newlines(before) + marked + without_newlines(behind));
    assert(preview.subrange(at, at + marked.len()) =~= marked);
}

} // verus!
