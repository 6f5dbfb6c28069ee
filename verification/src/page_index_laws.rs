//! What holds of the page-word index: it has every word of the page, and every place it
//! records delimits its word.

use crate::grouped::{
    has_key, is_grouping, key_slot, lemma_record_contents, lemma_record_keeps_grouping, values_of,
};
use crate::page_index::{
    index_of_records, page_index_with, text_between, word_records, WordRecord,
};
use crate::text::is_marked;
use vstd::prelude::*;

verus! {

/// Whether the clusters from `start` up to `end` are a word of the page that cannot be
/// made longer: a run of at least one word cluster, with no word cluster before it and
/// none behind it.
pub open spec fn is_maximal_word(
    clusters: Seq<Seq<char>>,
    marks: Seq<bool>,
    start: int,
    end: int,
) -> bool {
    &&& 0 <= start < end <= clusters.len()
    &&& forall|k: int| start <= k < end ==> #[trigger] is_marked(marks, k)
    &&& start == 0 || !is_marked(marks, start - 1)
    &&& end == clusters.len() || !is_marked(marks, end)
}

/// Whether `found` says truly where its word stands on the page.
pub open spec fn delimits_word(clusters: Seq<Seq<char>>, marks: Seq<bool>, found: WordRecord) -> bool {
    &&& 0 <= found.start <= found.end <= clusters.len()
    &&& found.word == text_between(clusters, found.start, found.end)
    &&& forall|k: int| found.start <= k < found.end ==> #[trigger] is_marked(marks, k)
}

/// Every occurrence found from `pos` on delimits its word.
pub proof fn lemma_records_delimit_words(
    clusters: Seq<Seq<char>>,
    marks: Seq<bool>,
    start: int,
    pos: int,
    k: int,
)
    requires
        0 <= start <= pos <= clusters.len(),
        forall|m: int| start <= m < pos ==> #[trigger] is_marked(marks, m),
        0 <= k < word_records(clusters, marks, start, pos).len(),
    ensures
        delimits_word(clusters, marks, word_records(clusters, marks, start, pos)[k]),
    decreases clusters.len() - pos,
{
    if pos >= clusters.len() {
    } else if is_marked(marks, pos) {
        lemma_records_delimit_words(clusters, marks, start, pos + 1, k);
    } else if k > 0 {
        lemma_records_delimit_words(clusters, marks, pos + 1, pos + 1, k - 1);
    }
}

/// A word that cannot be made longer, and that begins at `start` or later, is among the
/// occurrences found from `pos` on.
pub proof fn lemma_records_hold_maximal_words(
    clusters: Seq<Seq<char>>,
    marks: Seq<bool>,
    start: int,
    pos: int,
    a: int,
    b: int,
) -> (k: int)
    requires
        0 <= start <= pos <= clusters.len(),
        forall|m: int| start <= m < pos ==> #[trigger] is_marked(marks, m),
        is_maximal_word(clusters, marks, a, b),
        start <= a,
    ensures
        0 <= k < word_records(clusters, marks, start, pos).len(),
        word_records(clusters, marks, start, pos)[k] == (WordRecord {
            word: text_between(clusters, a, b),
            start: a,
            end: b,
        }),
    decreases clusters.len() - pos,
{
    if a > start {
        assert(!is_marked(marks, a - 1));
    }
    if pos >= clusters.len() {
        0
    } else if is_marked(marks, pos) {
        lemma_records_hold_maximal_words(clusters, marks, start, pos + 1, a, b)
    } else if a == start {
        assert(b <= pos) by {
            if b > pos {
                assert(is_marked(marks, pos));
            }
        }
        if b < pos {
            assert(is_marked(marks, b));
        }
        0
    } else {
        lemma_records_hold_maximal_words(clusters, marks, pos + 1, pos + 1, a, b) + 1
    }
}

/// The index of some occurrences has no word twice and no word without a position.
pub proof fn lemma_index_is_grouping(records: Seq<WordRecord>)
    ensures
        is_grouping(index_of_records(records)),
    decreases records.len(),
{
    if records.len() > 0 {
        let last = records.last();
        lemma_index_is_grouping(records.drop_last());
        lemma_record_keeps_grouping(
            index_of_records(records.drop_last()),
            last.word,
            (last.start as u32, last.end as u32),
        );
    }
}

/// Every occurrence is in the index: under its word, with its position.
pub proof fn lemma_index_holds_records(records: Seq<WordRecord>, k: int)
    requires
        0 <= k < records.len(),
    ensures
        has_key(index_of_records(records), records[k].word),
        values_of(index_of_records(records), records[k].word).contains(
            (records[k].start as u32, records[k].end as u32),
        ),
    decreases records.len(),
{
    let last = records.last();
    let before = index_of_records(records.drop_last());
    let position = (last.start as u32, last.end as u32);
    let after = index_of_records(records);
    lemma_index_is_grouping(records.drop_last());
    lemma_record_contents(before, last.word, position);
    if k == records.len() - 1 {
        let all = values_of(after, last.word);
        assert(all[all.len() - 1] == position);
    } else {
        lemma_index_holds_records(records.drop_last(), k);
        let word = records[k].word;
        let wanted = (records[k].start as u32, records[k].end as u32);
        let old_positions = values_of(before, word);
        let q = choose|q: int| 0 <= q < old_positions.len() && old_positions[q] == wanted;
        if word == last.word {
            let all = values_of(after, word);
            assert(all.drop_last()[q] == wanted);
            assert(all[q] == wanted);
        } else {
            assert(values_of(after, word)[q] == wanted);
        }
    }
}

/// Every position in the index is that of an occurrence of its word.
pub proof fn lemma_index_positions_are_records(records: Seq<WordRecord>, word: Seq<char>, q: int) -> (k:
    int)
    requires
        has_key(index_of_records(records), word),
        0 <= q < values_of(index_of_records(records), word).len(),
    ensures
        0 <= k < records.len(),
        records[k].word == word,
        values_of(index_of_records(records), word)[q] == (
            records[k].start as u32,
            records[k].end as u32,
        ),
    decreases records.len(),
{
    if records.len() == 0 {
        let i = key_slot(index_of_records(records), word);
        assert(false);
        0
    } else {
        let last = records.last();
        let before = index_of_records(records.drop_last());
        let position = (last.start as u32, last.end as u32);
        let after = index_of_records(records);
        lemma_index_is_grouping(records.drop_last());
        lemma_record_contents(before, last.word, position);
        let all = values_of(after, word);
        if word == last.word && q == all.len() - 1 {
            records.len() - 1
        } else {
            if word == last.word {
                assert(has_key(before, word));
                assert(all.drop_last()[q] == all[q]);
            }
            lemma_index_positions_are_records(records.drop_last(), word, q)
        }
    }
}

/// Completeness of the page-word index: every word of the page that cannot be made
/// longer has an entry, and the place where it stands is among the entry's positions.
pub proof fn lemma_page_index_complete(
    clusters: Seq<Seq<char>>,
    marks: Seq<bool>,
    start: int,
    end: int,
)
    requires
        is_maximal_word(clusters, marks, start, end),
    ensures
        has_key(page_index_with(clusters, marks), text_between(clusters, start, end)),
        values_of(page_index_with(clusters, marks), text_between(clusters, start, end)).contains(
            (start as u32, end as u32),
        ),
{
    let k = lemma_records_hold_maximal_words(clusters, marks, 0, 0, start, end);
    lemma_index_holds_records(word_records(clusters, marks, 0, 0), k);
}

/// Soundness of the page-word index, on a page whose offsets fit the positions' type:
/// every position recorded for a word delimits that word among the page's clusters.
pub proof fn lemma_page_index_sound(
    clusters: Seq<Seq<char>>,
    marks: Seq<bool>,
    word: Seq<char>,
    q: int,
)
    requires
        clusters.len() <= u32::MAX,
        has_key(page_index_with(clusters, marks), word),
        0 <= q < values_of(page_index_with(clusters, marks), word).len(),
    ensures
        delimits_word(
            clusters,
            marks,
            WordRecord {
                word: word,
                start: values_of(page_index_with(clusters, marks), word)[q].0 as int,
                end: values_of(page_index_with(clusters, marks), word)[q].1 as int,
            },
        ),
{
    let records = word_records(clusters, marks, 0, 0);
    let k = lemma_index_positions_are_records(records, word, q);
    lemma_records_delimit_words(clusters, marks, 0, 0, k);
}

} // verus!
