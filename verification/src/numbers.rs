//! Numbers as the user enters them.

use crate::text::{is_marked, mark_whitespace, whitespace_marks};
use vstd::prelude::*;

verus! {

/// Where a text of `limit` characters begins when the marked characters before it are
/// left out.
pub open spec fn trim_start(marks: Seq<bool>, from: int, limit: int) -> int
    decreases limit - from,
{
    if from < limit && is_marked(marks, from) {
        trim_start(marks, from + 1, limit)
    } else {
        from
    }
}

/// Where a text that begins at `from` ends when the marked characters behind it are
/// left out.
pub open spec fn trim_end(marks: Seq<bool>, from: int, to: int) -> int
    decreases to,
{
    if 0 <= from < to && is_marked(marks, to - 1) {
        trim_end(marks, from, to - 1)
    } else {
        to
    }
}

/// A text without the marked characters before it and behind it.
pub open spec fn trimmed_with(text: Seq<char>, marks: Seq<bool>) -> Seq<char> {
    let from = trim_start(marks, 0, text.len() as int);
    text.subrange(from, trim_end(marks, from, text.len() as int))
}

/// A text without the white space before it and behind it.
pub open spec fn trimmed(text: Seq<char>) -> Seq<char> {
    trimmed_with(text, whitespace_marks(text))
}

/// A text without the marked characters before it and behind it.
pub fn trim_marked(text: &Vec<char>, marks: &Vec<bool>) -> (inner: Vec<char>)
    ensures
        inner@ == trimmed_with(text@, marks@),
{
    let mut from: usize = 0;
    while from < text.len() && from < marks.len() && marks[from]
        invariant
            from <= text.len(),
            trim_start(marks@, 0, text.len() as int) == trim_start(
                marks@,
                from as int,
                text.len() as int,
            ),
        decreases text.len() - from,
    {
        from += 1;
    }
    let mut to: usize = text.len();
    while from < to && to - 1 < marks.len() && marks[to - 1]
        invariant
            from <= to <= text.len(),
            trim_end(marks@, from as int, text.len() as int) == trim_end(
                marks@,
                from as int,
                to as int,
            ),
        decreases to,
    {
        to -= 1;
    }
    let mut inner: Vec<char> = Vec::new();
    let mut k: usize = from;
    while k < to
        invariant
            from <= k <= to <= text.len(),
            inner@ == text@.subrange(from as int, k as int),
        decreases to - k,
    {
        inner.push(text[k]);
        k += 1;
    }
    inner
}

/// A text without the white space before it and behind it.
pub fn trim(text: &Vec<char>) -> (inner: Vec<char>)
    ensures
        inner@ == trimmed(text@),
{
    let marks = mark_whitespace(text);
    trim_marked(text, &marks)
}

/// The number that a decimal digit stands for.
pub open spec fn digit_value(c: char) -> Option<nat> {
    if c == '0' {
        Some(0)
    } else if c == '1' {
        Some(1)
    } else if c == '2' {
        Some(2)
    } else if c == '3' {
        Some(3)
    } else if c == '4' {
        Some(4)
    } else if c == '5' {
        Some(5)
    } else if c == '6' {
        Some(6)
    } else if c == '7' {
        Some(7)
    } else if c == '8' {
        Some(8)
    } else if c == '9' {
        Some(9)
    } else {
        None
    }
}

/// The number that a text of decimal digits stands for; nothing for an empty text and
/// for a text that holds anything but digits.
pub open spec fn digits_value(text: Seq<char>) -> Option<nat>
    decreases text.len(),
{
    if text.len() == 0 {
        None
    } else if text.len() == 1 {
        digit_value(text[0])
    } else {
        match (digits_value(text.drop_last()), digit_value(text.last())) {
            (Some(high), Some(low)) => Some(high * 10 + low),
            _ => None,
        }
    }
}

/// The number that a text stands for: decimal digits, with or without a plus sign
/// before them.
pub open spec fn unsigned_value(text: Seq<char>) -> Option<nat> {
    if text.len() > 0 && text[0] == '+' {
        digits_value(text.skip(1))
    } else {
        digits_value(text)
    }
}

/// The number that a text stands for, where it is none above `max`.
pub open spec fn bounded_value(text: Seq<char>, max: nat) -> Option<nat> {
    match unsigned_value(text) {
        Some(n) => if n <= max {
            Some(n)
        } else {
            None
        },
        None => None,
    }
}

fn digit_of(c: char) -> (d: Option<u64>)
    ensures
        d matches Some(v) ==> digit_value(c) == Some(v as nat) && v < 10,
        d is None ==> digit_value(c) is None,
{
    if c == '0' {
        Some(0)
    } else if c == '1' {
        Some(1)
    } else if c == '2' {
        Some(2)
    } else if c == '3' {
        Some(3)
    } else if c == '4' {
        Some(4)
    } else if c == '5' {
        Some(5)
    } else if c == '6' {
        Some(6)
    } else if c == '7' {
        Some(7)
    } else if c == '8' {
        Some(8)
    } else if c == '9' {
        Some(9)
    } else {
        None
    }
}

/// A text with a character that is no digit stands for no number, whatever follows.
proof fn lemma_no_digit_no_value(text: Seq<char>, k: int)
    requires
        0 <= k < text.len(),
        digit_value(text[k]) is None,
    ensures
        digits_value(text) is None,
    decreases text.len(),
{
    if text.len() > 1 && k < text.len() - 1 {
        lemma_no_digit_no_value(text.drop_last(), k);
    }
}

/// The number of a text of digits is no smaller than that of any of its beginnings.
proof fn lemma_value_grows(text: Seq<char>, k: int)
    requires
        0 < k <= text.len(),
        digits_value(text) is Some,
    ensures
        digits_value(text.take(k)) is Some,
        digits_value(text.take(k))->0 <= digits_value(text)->0,
    decreases text.len(),
{
    if k == text.len() {
        assert(text.take(k) =~= text);
    } else {
        assert(text.drop_last().take(k) =~= text.take(k));
        lemma_value_grows(text.drop_last(), k);
    }
}

/// Reads the number that `text` stands for, where it is none above `max`.
pub fn parse_unsigned(text: &Vec<char>, max: u64) -> (value: Option<u64>)
    ensures
        value matches Some(n) ==> bounded_value(text@, max as nat) == Some(n as nat),
        value is None ==> bounded_value(text@, max as nat) is None,
{
    let first: usize = if text.len() > 0 && text[0] == '+' {
        1
    } else {
        0
    };
    let ghost digits = text@.skip(first as int);
    proof {
        if first == 0 {
            assert(digits =~= text@);
        }
        assert(unsigned_value(text@) == digits_value(digits));
    }
    if first == text.len() {
        return None;
    }
    let mut value: u64 = 0;
    let mut k: usize = first;
    while k < text.len()
        invariant
            first <= k <= text.len(),
            first < text.len(),
            digits == text@.skip(first as int),
            unsigned_value(text@) == digits_value(digits),
            value <= max,
            k > first ==> digits_value(digits.take(k - first)) == Some(value as nat),
            k == first ==> value == 0,
        decreases text.len() - k,
    {
        let ghost read = digits.take(k + 1 - first);
        proof {
            assert(read.drop_last() =~= digits.take(k - first));
            assert(read.last() == text@[k as int]);
            assert(digits[k - first] == text@[k as int]);
        }
        match digit_of(text[k]) {
            None => {
                proof {
                    lemma_no_digit_no_value(digits, k - first);
                }
                return None;
            },
            Some(d) => {
                proof {
                    assert(digits_value(read) == Some((value * 10 + d) as nat));
                }
                if d > max || value > (max - d) / 10 {
                    proof {
                        if digits_value(digits) is Some {
                            lemma_value_grows(digits, k + 1 - first);
                        }
                    }
                    return None;
                }
                value = value * 10 + d;
            },
        }
        k += 1;
    }
    proof {
        assert(digits.take(text.len() - first) =~= digits);
    }
    Some(value)
}

} // verus!
