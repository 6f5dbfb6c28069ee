//! Texts as sequences of characters: conversions, grapheme clusters, distances.

use levenshtein::levenshtein;
use unicode_segmentation::UnicodeSegmentation;
use vstd::prelude::*;
use vstd::std_specs::iter::IteratorSpec;

verus! {

/// The characters of `s`, in order.
pub fn chars_of(s: &str) -> (v: Vec<char>)
    ensures
        v@ == s@,
{
    let mut v: Vec<char> = Vec::new();
    let chars = s.chars();
    for c in it: chars
        invariant
            it.seq() == s@,
            v@ == s@.take(it.index() as int),
    {
        v.push(c);
    }
    v
}

/// Appends `c` to `s`; stands for `String::push`, which puts the character at the end of
/// the string and changes nothing else.
#[verifier::external_body]
fn push_char(s: &mut String, c: char)
    ensures
        final(s)@ == old(s)@.push(c),
{
    s.push(c)
}

/// The string whose characters are `v`, in order.
pub fn string_of(v: &Vec<char>) -> (s: String)
    ensures
        s@ == v@,
{
    let mut s = String::new();
    let mut i: usize = 0;
    while i < v.len()
        invariant
            i <= v.len(),
            s@ == v@.take(i as int),
        decreases v.len() - i,
    {
        push_char(&mut s, v[i]);
        i += 1;
    }
    s
}

/// The texts of a vector of strings.
pub open spec fn strings_view(strings: Seq<String>) -> Seq<Seq<char>> {
    Seq::new(strings.len(), |i: int| strings[i]@)
}

/// A copy of `strings`.
pub fn clone_strings(strings: &Vec<String>) -> (copy: Vec<String>)
    ensures
        strings_view(copy@) == strings_view(strings@),
{
    let mut copy: Vec<String> = Vec::new();
    let mut i: usize = 0;
    while i < strings.len()
        invariant
            i <= strings.len(),
            strings_view(copy@) == strings_view(strings@).take(i as int),
        decreases strings.len() - i,
    {
        let ghost before = copy@;
        assert(strings_view(before).len() == i);
        copy.push(strings[i].clone());
        assert forall|k: int| 0 <= k < i + 1 implies strings_view(copy@)[k] == strings_view(
            strings@,
        ).take(i + 1)[k] by {
            if k < i {
                assert(strings_view(before)[k] == strings_view(strings@).take(i as int)[k]);
            }
        }
        assert(strings_view(copy@) =~= strings_view(strings@).take(i + 1));
        i += 1;
    }
    assert(strings_view(copy@) =~= strings_view(strings@));
    copy
}

/// Puts the characters of `chars` behind those of `buffer`.
pub fn append_chars(buffer: &mut Vec<char>, chars: &Vec<char>)
    ensures
        final(buffer)@ == old(buffer)@ + chars@,
{
    let mut i: usize = 0;
    while i < chars.len()
        invariant
            i <= chars.len(),
            buffer@ == old(buffer)@ + chars@.take(i as int),
        decreases chars.len() - i,
    {
        buffer.push(chars[i]);
        i += 1;
    }
}

/// Puts the characters of `text` behind those of `buffer`.
pub fn append_str(buffer: &mut Vec<char>, text: &str)
    ensures
        final(buffer)@ == old(buffer)@ + text@,
{
    let chars = chars_of(text);
    append_chars(buffer, &chars);
}

/// The decimal digit for a number below ten.
pub open spec fn digit_char(d: nat) -> char {
    if d == 0 {
        '0'
    } else if d == 1 {
        '1'
    } else if d == 2 {
        '2'
    } else if d == 3 {
        '3'
    } else if d == 4 {
        '4'
    } else if d == 5 {
        '5'
    } else if d == 6 {
        '6'
    } else if d == 7 {
        '7'
    } else if d == 8 {
        '8'
    } else {
        '9'
    }
}

/// A number written in decimal digits, without leading zeros.
pub open spec fn decimal_digits(n: nat) -> Seq<char>
    decreases n,
{
    if n < 10 {
        seq![digit_char(n)]
    } else {
        decimal_digits(n / 10).push(digit_char(n % 10))
    }
}

fn digit(d: u64) -> (c: char)
    requires
        d < 10,
    ensures
        c == digit_char(d as nat),
{
    if d == 0 {
        '0'
    } else if d == 1 {
        '1'
    } else if d == 2 {
        '2'
    } else if d == 3 {
        '3'
    } else if d == 4 {
        '4'
    } else if d == 5 {
        '5'
    } else if d == 6 {
        '6'
    } else if d == 7 {
        '7'
    } else if d == 8 {
        '8'
    } else {
        '9'
    }
}

/// Puts the decimal digits of `n` behind the characters of `buffer`.
pub fn append_decimal(buffer: &mut Vec<char>, n: u64)
    ensures
        final(buffer)@ == old(buffer)@ + decimal_digits(n as nat),
    decreases n,
{
    if n >= 10 {
        append_decimal(buffer, n / 10);
    }
    buffer.push(digit(n % 10));
}

/// A text in which every line feed has become a space.
pub open spec fn without_newlines(text: Seq<char>) -> Seq<char> {
    Seq::new(
        text.len(),
        |i: int|
            if text[i] == '\n' {
                ' '
            } else {
                text[i]
            },
    )
}

/// Replaces every line feed of `text` by a space.
pub fn replace_newlines(text: &Vec<char>) -> (flat: Vec<char>)
    ensures
        flat@ == without_newlines(text@),
{
    let mut flat: Vec<char> = Vec::new();
    let mut i: usize = 0;
    while i < text.len()
        invariant
            i <= text.len(),
            flat@ == without_newlines(text@).take(i as int),
        decreases text.len() - i,
    {
        if text[i] == '\n' {
            flat.push(' ');
        } else {
            flat.push(text[i]);
        }
        i += 1;
    }
    flat
}

/// Whether the last characters of `text` are those of `suffix`.
pub open spec fn is_suffix(suffix: Seq<char>, text: Seq<char>) -> bool {
    suffix.len() <= text.len() && text.subrange(text.len() - suffix.len(), text.len() as int)
        == suffix
}

/// Whether `text` ends with `suffix`.
pub fn ends_with(text: &str, suffix: &str) -> (b: bool)
    ensures
        b == is_suffix(suffix@, text@),
{
    let all = chars_of(text);
    let tail = chars_of(suffix);
    if tail.len() > all.len() {
        return false;
    }
    let offset = all.len() - tail.len();
    let mut i: usize = 0;
    while i < tail.len()
        invariant
            i <= tail.len(),
            offset == all.len() - tail.len(),
            all@ == text@,
            tail@ == suffix@,
            forall|k: int| 0 <= k < i ==> all@[offset + k] == tail@[k],
        decreases tail.len() - i,
    {
        if all[offset + i] != tail[i] {
            assert(all@.subrange(all.len() - tail.len(), all.len() as int)[i as int] != tail@[i as int]);
            return false;
        }
        i += 1;
    }
    assert(all@.subrange(all.len() - tail.len(), all.len() as int) =~= tail@);
    true
}

/// Whether Unicode classes `c` as a letter or a number, as `char::is_alphanumeric` reports it.
pub uninterp spec fn char_is_alphanumeric(c: char) -> bool;

/// Stands for `char::is_alphanumeric`: the answer depends on the character alone.
#[verifier::external_body]
pub(crate) fn is_alphanumeric(c: char) -> (b: bool)
    ensures
        b == char_is_alphanumeric(c),
{
    c.is_alphanumeric()
}

/// Whether Unicode classes `c` as white space, as `char::is_whitespace` reports it.
pub uninterp spec fn char_is_whitespace(c: char) -> bool;

/// Stands for `char::is_whitespace`: the answer depends on the character alone.
#[verifier::external_body]
pub(crate) fn is_whitespace(c: char) -> (b: bool)
    ensures
        b == char_is_whitespace(c),
{
    c.is_whitespace()
}

/// Whether the place `k` is marked; a place without a mark is not.
pub open spec fn is_marked(marks: Seq<bool>, k: int) -> bool {
    0 <= k < marks.len() && marks[k]
}

/// The marks of the characters of a text: which of them are white space.
pub open spec fn whitespace_marks(text: Seq<char>) -> Seq<bool> {
    Seq::new(text.len(), |i: int| char_is_whitespace(text[i]))
}

/// Marks the characters of `text` that are white space.
pub fn mark_whitespace(text: &Vec<char>) -> (marks: Vec<bool>)
    ensures
        marks@ == whitespace_marks(text@),
{
    let mut marks: Vec<bool> = Vec::new();
    let mut i: usize = 0;
    while i < text.len()
        invariant
            i <= text.len(),
            marks@ == whitespace_marks(text@).take(i as int),
        decreases text.len() - i,
    {
        marks.push(is_whitespace(text[i]));
        assert(marks@ =~= whitespace_marks(text@).take(i + 1));
        i += 1;
    }
    assert(marks@ =~= whitespace_marks(text@));
    marks
}

/// The extended grapheme clusters of a text, in order, as the Unicode segmentation rules
/// cut them.
pub uninterp spec fn grapheme_clusters(text: Seq<char>) -> Seq<Seq<char>>;

/// The character sequences held by a vector of clusters.
pub open spec fn clusters_view(clusters: Seq<Vec<char>>) -> Seq<Seq<char>> {
    Seq::new(clusters.len(), |i: int| clusters[i]@)
}

/// Stands for `UnicodeSegmentation::graphemes` with extended clusters. Its iterator hands
/// out consecutive, non-empty slices of the text, from its start to its end; here each
/// slice is given as its characters. Where the cuts fall is left to the name
/// `grapheme_clusters`.
#[verifier::external_body]
pub(crate) fn split_graphemes(text: &str) -> (clusters: Vec<Vec<char>>)
    ensures
        clusters_view(clusters@) == grapheme_clusters(text@),
        clusters_view(clusters@).flatten() == text@,
        forall|i: int| 0 <= i < clusters.len() ==> (#[trigger] clusters[i])@.len() > 0,
{
    text.graphemes(true).map(chars_of).collect()
}

/// The smaller of two numbers.
pub open spec fn min2(x: nat, y: nat) -> nat {
    if x <= y {
        x
    } else {
        y
    }
}

/// The Levenshtein distance of two character sequences: the least number of single
/// characters to insert, delete or replace that turns `a` into `b`.
pub open spec fn edit_distance(a: Seq<char>, b: Seq<char>) -> nat
    decreases a.len() + b.len(),
{
    if a.len() == 0 {
        b.len()
    } else if b.len() == 0 {
        a.len()
    } else {
        let replace: nat = if a.last() == b.last() {
            0
        } else {
            1
        };
        min2(
            edit_distance(a.drop_last(), b.drop_last()) + replace,
            min2(edit_distance(a.drop_last(), b) + 1, edit_distance(a, b.drop_last()) + 1),
        )
    }
}

/// Stands for `levenshtein::levenshtein`, which computes the Levenshtein distance of the
/// two strings, character by character.
#[verifier::external_body]
pub(crate) fn levenshtein_distance(a: &str, b: &str) -> (d: usize)
    ensures
        d == edit_distance(a@, b@),
{
    levenshtein(a, b)
}

/// Whether `needle` occurs in `haystack` as a run of consecutive characters.
pub open spec fn is_substring(needle: Seq<char>, haystack: Seq<char>) -> bool {
    exists|i: int|
        0 <= i && i + needle.len() <= haystack.len() && #[trigger] haystack.subrange(
            i,
            i + needle.len(),
        ) == needle
}

/// Whether the characters of `needle` stand in `haystack` from place `at` on.
fn stands_at(haystack: &Vec<char>, needle: &Vec<char>, at: usize) -> (b: bool)
    requires
        at + needle.len() <= haystack.len(),
    ensures
        b == (haystack@.subrange(at as int, at + needle.len()) == needle@),
{
    let mut k: usize = 0;
    while k < needle.len()
        invariant
            k <= needle.len(),
            at + needle.len() <= haystack.len(),
            forall|m: int| 0 <= m < k ==> haystack@[at + m] == needle@[m],
        decreases needle.len() - k,
    {
        if haystack[at + k] != needle[k] {
            assert(haystack@.subrange(at as int, at + needle.len())[k as int] != needle@[k as int]);
            return false;
        }
        k += 1;
    }
    assert(haystack@.subrange(at as int, at + needle.len()) =~= needle@);
    true
}

/// Whether `needle` occurs in `haystack`.
pub fn str_contains(haystack: &str, needle: &str) -> (b: bool)
    ensures
        b == is_substring(needle@, haystack@),
{
    let all = chars_of(haystack);
    let wanted = chars_of(needle);
    if wanted.len() > all.len() {
        return false;
    }
    let last = all.len() - wanted.len();
    let mut at: usize = 0;
    while at < last
        invariant
            at <= last,
            last == all.len() - wanted.len(),
            all@ == haystack@,
            wanted@ == needle@,
            forall|i: int|
                0 <= i < at ==> #[trigger] all@.subrange(i, i + wanted.len()) != wanted@,
        decreases last - at,
    {
        if stands_at(&all, &wanted, at) {
            return true;
        }
        at += 1;
    }
    stands_at(&all, &wanted, last)
}

} // verus!
