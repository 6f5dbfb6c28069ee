//! The page-word index: the words of a page with the places where they stand.

use crate::grouped::{record, GroupView, Grouped};
use crate::text::{
    append_chars, char_is_alphanumeric, clusters_view, grapheme_clusters, is_alphanumeric,
    is_marked, split_graphemes, string_of,
};
use vstd::prelude::*;

verus! {

/// The words of one page, each with the places where it stands: pairs of grapheme
/// offsets, the first at the word's start, the second just behind its end.
pub type PageIndex = Grouped<(u32, u32)>;

/// Whether every character of a grapheme cluster is a letter or a number.
pub open spec fn is_word_cluster(cluster: Seq<char>) -> bool {
    forall|k: int| 0 <= k < cluster.len() ==> char_is_alphanumeric(#[trigger] cluster[k])
}

/// The marks of the clusters of a page: which of them are word clusters.
pub open spec fn word_marks(clusters: Seq<Seq<char>>) -> Seq<bool> {
    Seq::new(clusters.len(), |i: int| is_word_cluster(clusters[i]))
}

/// One occurrence of a word on a page: the word, the offset of its first cluster and the
/// offset just behind its last.
pub struct WordRecord {
    pub word: Seq<char>,
    pub start: int,
    pub end: int,
}

/// The clusters from `start` up to `end`, written one behind the other.
pub open spec fn text_between(clusters: Seq<Seq<char>>, start: int, end: int) -> Seq<char> {
    clusters.subrange(start, end).flatten()
}

/// The word occurrences found from `pos` on, when the word being read began at `start`
/// and every cluster from `start` up to `pos` belongs to it. A cluster that is no word
/// cluster closes the word being read, and the next word begins behind it; the end of
/// the page closes a word that began before it. The word between two such clusters that
/// follow each other is empty, and is recorded as well.
pub open spec fn word_records(
    clusters: Seq<Seq<char>>,
    marks: Seq<bool>,
    start: int,
    pos: int,
) -> Seq<WordRecord>
    decreases clusters.len() - pos,
{
    if pos < 0 || pos >= clusters.len() {
        if 0 <= start < clusters.len() {
            seq![
                WordRecord {
                    word: text_between(clusters, start, clusters.len() as int),
                    start: start,
                    end: clusters.len() as int,
                },
            ]
        } else {
            Seq::empty()
        }
    } else if is_marked(marks, pos) {
        word_records(clusters, marks, start, pos + 1)
    } else {
        seq![WordRecord { word: text_between(clusters, start, pos), start: start, end: pos }]
            + word_records(clusters, marks, pos + 1, pos + 1)
    }
}

/// The index that holds the given occurrences, recorded one after the other.
pub open spec fn index_of_records(records: Seq<WordRecord>) -> Seq<GroupView<(u32, u32)>>
    decreases records.len(),
{
    if records.len() == 0 {
        Seq::empty()
    } else {
        let last = records.last();
        record(
            index_of_records(records.drop_last()),
            last.word,
            (last.start as u32, last.end as u32),
        )
    }
}

/// The page-word index of a page that consists of the given clusters, of which the
/// marked ones are word clusters.
pub open spec fn page_index_with(clusters: Seq<Seq<char>>, marks: Seq<bool>) -> Seq<
    GroupView<(u32, u32)>,
> {
    index_of_records(word_records(clusters, marks, 0, 0))
}

/// The page-word index of a page that consists of the given grapheme clusters.
pub open spec fn page_index_of(clusters: Seq<Seq<char>>) -> Seq<GroupView<(u32, u32)>> {
    page_index_with(clusters, word_marks(clusters))
}

/// Whether every character of `cluster` is a letter or a number.
pub fn cluster_is_word(cluster: &Vec<char>) -> (b: bool)
    ensures
        b == is_word_cluster(cluster@),
{
    let mut k: usize = 0;
    while k < cluster.len()
        invariant
            k <= cluster.len(),
            forall|m: int| 0 <= m < k ==> char_is_alphanumeric(#[trigger] cluster@[m]),
        decreases cluster.len() - k,
    {
        if !is_alphanumeric(cluster[k]) {
            return false;
        }
        k += 1;
    }
    true
}

/// Builds the page-word index of a page from its clusters and the marks of its word
/// clusters.
pub fn index_marked(clusters: &Vec<Vec<char>>, marks: &Vec<bool>) -> (index: PageIndex)
    ensures
        index@ == page_index_with(clusters_view(clusters@), marks@),
{
    let ghost view = clusters_view(clusters@);
    let n = clusters.len();
    let mut index: PageIndex = Grouped::new();
    let mut buffer: Vec<char> = Vec::new();
    let mut start: usize = 0;
    let mut pos: usize = 0;
    let ghost mut done: Seq<WordRecord> = Seq::empty();
    proof {
        assert(view.subrange(0, 0) =~= Seq::<Seq<char>>::empty());
        assert(done + word_records(view, marks@, 0, 0) =~= word_records(view, marks@, 0, 0));
    }
    while pos < n
        invariant
            n == clusters.len(),
            view == clusters_view(clusters@),
            start <= pos <= n,
            buffer@ == text_between(view, start as int, pos as int),
            word_records(view, marks@, 0, 0) == done + word_records(view, marks@, start as int, pos as int),
            index@ == index_of_records(done),
        decreases n - pos,
    {
        if pos < marks.len() && marks[pos] {
            append_chars(&mut buffer, &clusters[pos]);
            proof {
                assert(view.subrange(start as int, pos + 1) =~= view.subrange(
                    start as int,
                    pos as int,
                ).push(view[pos as int]));
                view.subrange(start as int, pos as int).lemma_flatten_push(view[pos as int]);
            }
            pos += 1;
        } else {
            let word = string_of(&buffer);
            let ghost found = WordRecord { word: word@, start: start as int, end: pos as int };
            index.insert(word, (start as u32, pos as u32));
            proof {
                assert(done.push(found).drop_last() =~= done);
                assert(done + (seq![found] + word_records(view, marks@, pos + 1, pos + 1)) =~= done.push(
                    found,
                ) + word_records(view, marks@, pos + 1, pos + 1));
                done = done.push(found);
                assert(view.subrange(pos + 1, pos + 1) =~= Seq::<Seq<char>>::empty());
            }
            buffer = Vec::new();
            pos += 1;
            start = pos;
        }
    }
    if start < n {
        let word = string_of(&buffer);
        let ghost found = WordRecord { word: word@, start: start as int, end: n as int };
        index.insert(word, (start as u32, n as u32));
        proof {
            assert(done.push(found).drop_last() =~= done);
            assert(done + seq![found] =~= done.push(found));
        }
    } else {
        proof {
            assert(done + Seq::<WordRecord>::empty() =~= done);
        }
    }
    index
}

/// Builds the page-word index of a page from its grapheme clusters.
pub fn index_clusters(clusters: &Vec<Vec<char>>) -> (index: PageIndex)
    ensures
        index@ == page_index_of(clusters_view(clusters@)),
{
    let mut marks: Vec<bool> = Vec::new();
    let mut i: usize = 0;
    while i < clusters.len()
        invariant
            i <= clusters.len(),
            marks@ == word_marks(clusters_view(clusters@)).take(i as int),
        decreases clusters.len() - i,
    {
        marks.push(cluster_is_word(&clusters[i]));
        assert(marks@ =~= word_marks(clusters_view(clusters@)).take(i + 1));
        i += 1;
    }
    assert(marks@ =~= word_marks(clusters_view(clusters@)));
    index_marked(clusters, &marks)
}

/// Builds the page-word index of a page from its text: the text is cut into grapheme
/// clusters, and every run of word clusters is recorded with its cluster offsets.
pub fn create_page_index(body: &str) -> (index: PageIndex)
    ensures
        index@ == page_index_of(grapheme_clusters(body@)),
{
    let clusters = split_graphemes(body);
    index_clusters(&clusters)
}

} // verus!
