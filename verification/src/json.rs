//! The page-word index as JSON text.

use crate::errors::LittIndexError;
use crate::grouped::{record, GroupView, Grouped};
use crate::page_index::PageIndex;
use std::collections::BTreeMap;
use vstd::prelude::*;

verus! {

/// An error of the JSON reader or writer.
#[verifier::external_type_specification]
#[verifier::external_body]
pub struct ExJsonError(serde_json::Error);

/// The character sequences and positions held by a vector of words with their positions.
pub open spec fn page_words_view(words: Seq<(String, Vec<(u32, u32)>)>) -> Seq<
    (Seq<char>, Seq<(u32, u32)>),
> {
    Seq::new(words.len(), |i: int| (words[i].0@, words[i].1@))
}

/// No two of the words are the same.
pub open spec fn words_differ(words: Seq<(Seq<char>, Seq<(u32, u32)>)>) -> bool {
    forall|i: int, j: int| 0 <= i < j < words.len() ==> (#[trigger] words[i]).0 != (#[trigger] words[j]).0
}

/// What a JSON text holds when it is read as an object whose members are lists of pairs
/// of numbers below 2^32: the members' names with their lists, each name once; nothing
/// where the text is no such object.
pub uninterp spec fn parsed_page_words(data: Seq<char>) -> Option<Seq<(Seq<char>, Seq<(u32, u32)>)>>;

/// The JSON text of an object that has each of the given words as a member, with the
/// list of the word's positions as the member's value; of two entries for one word the
/// later counts.
pub uninterp spec fn page_words_json(words: Seq<(Seq<char>, Seq<(u32, u32)>)>) -> Seq<char>;

/// Stands for `serde_json::from_str`, reading a map from strings to lists of pairs of
/// 32-bit numbers. What it makes of a text depends on the text alone; a map holds each
/// key once.
#[verifier::external_body]
fn parse_page_words(data: &str) -> (result: Result<Vec<(String, Vec<(u32, u32)>)>, serde_json::Error>)
    ensures
        result matches Ok(words) ==> parsed_page_words(data@) == Some(page_words_view(words@))
            && words_differ(page_words_view(words@)),
        result is Err ==> parsed_page_words(data@) is None,
{
    serde_json::from_str::<BTreeMap<String, Vec<(u32, u32)>>>(data).map(
        |map| map.into_iter().collect(),
    )
}

/// Stands for `serde_json::to_string`, writing a map from strings to lists of pairs of
/// 32-bit numbers, with its keys in their order. The writer fails only where a value
/// refuses to be written or a map has a key that is no string; a map of this type has
/// neither, and the text is written into memory, so the call succeeds. What it writes
/// depends on the map alone.
#[verifier::external_body]
fn write_page_words(words: &Vec<(String, Vec<(u32, u32)>)>) -> (result: Result<
    String,
    serde_json::Error,
>)
    ensures
        result is Ok,
        result matches Ok(json) ==> json@ == page_words_json(page_words_view(words@)),
{
    serde_json::to_string(&words.iter().cloned().collect::<BTreeMap<String, Vec<(u32, u32)>>>())
}

/// Stands for the `Display` formatting of `serde_json::Error`: the error's text.
#[verifier::external_body]
fn json_error_text(error: &serde_json::Error) -> (text: String) {
    error.to_string()
}

/// The groups after the given positions of `word` were recorded one after the other.
pub open spec fn positions_recorded(
    groups: Seq<GroupView<(u32, u32)>>,
    word: Seq<char>,
    positions: Seq<(u32, u32)>,
) -> Seq<GroupView<(u32, u32)>>
    decreases positions.len(),
{
    if positions.len() == 0 {
        groups
    } else {
        record(positions_recorded(groups, word, positions.drop_last()), word, positions.last())
    }
}

/// The page-word index that holds the given words with their positions; a word without
/// positions has no entry.
pub open spec fn index_of_words(words: Seq<(Seq<char>, Seq<(u32, u32)>)>) -> Seq<
    GroupView<(u32, u32)>,
>
    decreases words.len(),
{
    if words.len() == 0 {
        Seq::empty()
    } else {
        positions_recorded(index_of_words(words.drop_last()), words.last().0, words.last().1)
    }
}

/// The words of an index with their positions.
pub open spec fn words_of_index(index: Seq<GroupView<(u32, u32)>>) -> Seq<
    (Seq<char>, Seq<(u32, u32)>),
> {
    Seq::new(index.len(), |i: int| (index[i].key, index[i].values))
}

/// The page-word index that holds the given words with their positions.
pub fn index_words(words: &Vec<(String, Vec<(u32, u32)>)>) -> (index: PageIndex)
    ensures
        index@ == index_of_words(page_words_view(words@)),
{
    let ghost view = page_words_view(words@);
    let mut index: PageIndex = Grouped::new();
    let mut i: usize = 0;
    proof {
        assert(view.take(0) =~= Seq::<(Seq<char>, Seq<(u32, u32)>)>::empty());
    }
    while i < words.len()
        invariant
            i <= words.len(),
            view == page_words_view(words@),
            index@ == index_of_words(view.take(i as int)),
        decreases words.len() - i,
    {
        let ghost before = index@;
        let positions = &words[i].1;
        let mut k: usize = 0;
        proof {
            assert(view.take(i + 1).drop_last() =~= view.take(i as int));
            assert(view.take(i + 1).last() == view[i as int]);
            assert(positions@.take(0) =~= Seq::<(u32, u32)>::empty());
        }
        while k < positions.len()
            invariant
                k <= positions.len(),
                i < words.len(),
                positions == &words[i as int].1,
                index@ == positions_recorded(before, words[i as int].0@, positions@.take(k as int)),
            decreases positions.len() - k,
        {
            proof {
                assert(positions@.take(k + 1).drop_last() =~= positions@.take(k as int));
            }
            index.insert(words[i].0.clone(), positions[k]);
            k += 1;
        }
        proof {
            assert(positions@.take(positions.len() as int) =~= positions@);
        }
        i += 1;
    }
    proof {
        assert(view.take(words.len() as int) =~= view);
    }
    index
}

/// A copy of `positions`.
pub fn copy_positions(positions: &Vec<(u32, u32)>) -> (copy: Vec<(u32, u32)>)
    ensures
        copy@ == positions@,
{
    let mut copy: Vec<(u32, u32)> = Vec::new();
    let mut k: usize = 0;
    while k < positions.len()
        invariant
            k <= positions.len(),
            copy@ == positions@.take(k as int),
        decreases positions.len() - k,
    {
        copy.push(positions[k]);
        k += 1;
    }
    copy
}

/// Reads a page-word index from its JSON text: an object with the words as members,
/// each with the list of the word's positions.
pub fn parse_page_index(data: &str) -> (result: Result<PageIndex, LittIndexError>)
    ensures
        parsed_page_words(data@) matches Some(words) ==> (result matches Ok(index) && index@
            == index_of_words(words)),
        parsed_page_words(data@) is None ==> result matches Err(LittIndexError::SerdeJsonError(_)),
{
    match parse_page_words(data) {
        Ok(words) => Ok(index_words(&words)),
        Err(error) => Err(LittIndexError::SerdeJsonError(json_error_text(&error))),
    }
}

/// Writes a page-word index as JSON text: an object with the words as members, each
/// with the list of the word's positions.
pub fn page_index_json(index: &PageIndex) -> (result: Result<String, LittIndexError>)
    ensures
        result matches Ok(json) && json@ == page_words_json(words_of_index(index@)),
{
    let mut words: Vec<(String, Vec<(u32, u32)>)> = Vec::new();
    let n = index.len();
    let mut i: usize = 0;
    while i < n
        invariant
            i <= n,
            n == index@.len(),
            page_words_view(words@) == words_of_index(index@).take(i as int),
        decreases n - i,
    {
        let entry = index.entry(i);
        let ghost before = words@;
        words.push((entry.key.clone(), copy_positions(&entry.values)));
        proof {
            assert(page_words_view(before).len() == i);
            assert forall|k: int| 0 <= k < i + 1 implies page_words_view(words@)[k]
                == words_of_index(index@).take(i + 1)[k] by {
                if k < i {
                    assert(page_words_view(before)[k] == words_of_index(index@).take(i as int)[k]);
                }
            }
            assert(page_words_view(words@) =~= words_of_index(index@).take(i + 1));
        }
        i += 1;
    }
    proof {
        assert(words_of_index(index@).take(n as int) =~= words_of_index(index@));
    }
    match write_page_words(&words) {
        Ok(json) => Ok(json),
        Err(error) => Err(LittIndexError::SerdeJsonError(json_error_text(&error))),
    }
}

} // verus!
