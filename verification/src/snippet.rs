//! The preview of a page for an exact query.

use crate::text::{append_str, chars_of, replace_newlines, string_of, without_newlines};
use vstd::prelude::*;

verus! {

/// A piece of a page's text with the runs of it that match a query. A run is a pair of
/// character offsets into the piece, the first at the run's start, the second just behind
/// its end. The runs lie within the piece and follow each other without overlap.
pub struct Snippet {
    fragment: String,
    highlighted: Vec<(usize, usize)>,
}

/// Whether the runs lie within a text of `length` characters and follow each other
/// without overlap.
pub open spec fn runs_in_order(length: int, runs: Seq<(usize, usize)>) -> bool {
    &&& forall|i: int| 0 <= i < runs.len() ==> (#[trigger] runs[i]).0 <= runs[i].1 <= length
    &&& forall|i: int, j: int|
        0 <= i < j < runs.len() ==> (#[trigger] runs[i]).1 <= (#[trigger] runs[j]).0
}

/// The text from `from` on in which every run stands between a space with two asterisks
/// and two asterisks with a space.
pub open spec fn marked(text: Seq<char>, runs: Seq<(usize, usize)>, from: int) -> Seq<char>
    decreases runs.len(),
{
    if runs.len() == 0 {
        text.subrange(from, text.len() as int)
    } else {
        text.subrange(from, runs[0].0 as int) + " **"@ + text.subrange(
            runs[0].0 as int,
            runs[0].1 as int,
        ) + "** "@ + marked(text, runs.drop_first(), runs[0].1 as int)
    }
}

/// The preview made of a snippet: its runs marked, and a space for every line feed.
pub open spec fn highlighted_text(fragment: Seq<char>, runs: Seq<(usize, usize)>) -> Seq<char> {
    without_newlines(marked(fragment, runs, 0))
}

/// Puts the characters of `text` from `from` up to `to` behind those of `buffer`.
pub fn append_range(buffer: &mut Vec<char>, text: &Vec<char>, from: usize, to: usize)
    requires
        from <= to <= text.len(),
    ensures
        final(buffer)@ == old(buffer)@ + text@.subrange(from as int, to as int),
{
    let mut k: usize = from;
    while k < to
        invariant
            from <= k <= to <= text.len(),
            buffer@ == old(buffer)@ + text@.subrange(from as int, k as int),
        decreases to - k,
    {
        buffer.push(text[k]);
        k += 1;
    }
}

impl Snippet {
    #[verifier::type_invariant]
    spec fn wf(self) -> bool {
        runs_in_order(self.fragment@.len() as int, self.highlighted@)
    }

    /// The piece of text.
    pub closed spec fn text(self) -> Seq<char> {
        self.fragment@
    }

    /// The runs that match.
    pub closed spec fn runs(self) -> Seq<(usize, usize)> {
        self.highlighted@
    }

    /// The snippet of a piece of text and its matching runs, where the runs lie within
    /// the piece and follow each other without overlap; nothing otherwise.
    pub fn new(fragment: String, highlighted: Vec<(usize, usize)>) -> (snippet: Option<Snippet>)
        ensures
            snippet is Some == runs_in_order(fragment@.len() as int, highlighted@),
            snippet matches Some(made) ==> made.text() == fragment@ && made.runs()
                == highlighted@,
    {
        let length = chars_of(fragment.as_str()).len();
        let mut reached: usize = 0;
        let mut k: usize = 0;
        while k < highlighted.len()
            invariant
                k <= highlighted.len(),
                reached <= length,
                length == fragment@.len(),
                runs_in_order(length as int, highlighted@.take(k as int)),
                forall|i: int| 0 <= i < k ==> (#[trigger] highlighted@[i]).1 <= reached,
                k == 0 ==> reached == 0,
                k > 0 ==> reached == highlighted@[k - 1].1,
            decreases highlighted.len() - k,
        {
            let run = highlighted[k];
            if !(reached <= run.0 && run.0 <= run.1 && run.1 <= length) {
                proof {
                    if runs_in_order(length as int, highlighted@) {
                        if run.0 < reached {
                            assert(highlighted@[k - 1].1 <= highlighted@[k as int].0);
                        }
                        assert(highlighted@[k as int].0 <= highlighted@[k as int].1 <= length);
                    }
                }
                return None;
            }
            proof {
                let before = highlighted@.take(k as int);
                let now = highlighted@.take(k + 1);
                assert forall|i: int, j: int| 0 <= i < j < now.len() implies (#[trigger] now[i]).1 <= (
                #[trigger] now[j]).0 by {
                    if j < k {
                        assert(before[i].1 <= before[j].0);
                    } else {
                        assert(highlighted@[i].1 <= reached);
                    }
                }
                assert forall|i: int| 0 <= i < now.len() implies (#[trigger] now[i]).0 <= now[i].1
                    <= length by {
                    if i < k {
                        assert(before[i].0 <= before[i].1 <= length);
                    }
                }
            }
            reached = run.1;
            k += 1;
        }
        proof {
            assert(highlighted@.take(k as int) =~= highlighted@);
        }
        Some(Snippet { fragment, highlighted })
    }

    /// The preview made of the snippet: every matching run between a space with two
    /// asterisks and two asterisks with a space, and a space for every line feed.
    pub fn highlight(&self) -> (preview: String)
        ensures
            preview@ == highlighted_text(self.text(), self.runs()),
    {
        proof {
            use_type_invariant(self);
        }
        let text = chars_of(self.fragment.as_str());
        let mut buffer: Vec<char> = Vec::new();
        let mut start_from: usize = 0;
        let mut k: usize = 0;
        proof {
            assert(self.highlighted@.skip(0) =~= self.highlighted@);
        }
        while k < self.highlighted.len()
            invariant
                k <= self.highlighted.len(),
                k == 0 ==> start_from == 0,
                text@ == self.fragment@,
                runs_in_order(text.len() as int, self.highlighted@),
                start_from <= text.len(),
                k > 0 ==> start_from == self.highlighted@[k - 1].1,
                buffer@ + marked(text@, self.highlighted@.skip(k as int), start_from as int)
                    == marked(text@, self.highlighted@, 0),
            decreases self.highlighted.len() - k,
        {
            let run = self.highlighted[k];
            proof {
                let rest = self.highlighted@.skip(k as int);
                assert(rest[0] == run);
                assert(rest.drop_first() =~= self.highlighted@.skip(k + 1));
                if k > 0 {
                    assert(self.highlighted@[k - 1].1 <= self.highlighted@[k as int].0);
                }
            }
            let ghost before = buffer@;
            append_range(&mut buffer, &text, start_from, run.0);
            append_str(&mut buffer, " **");
            append_range(&mut buffer, &text, run.0, run.1);
            append_str(&mut buffer, "** ");
            proof {
                assert(buffer@ + marked(text@, self.highlighted@.skip(k + 1), run.1 as int)
                    =~= before + marked(text@, self.highlighted@.skip(k as int), start_from as int));
            }
            start_from = run.1;
            k += 1;
        }
        proof {
            assert(self.highlighted@.skip(k as int) =~= Seq::<(usize, usize)>::empty());
        }
        append_range(&mut buffer, &text, start_from, text.len());
        let flat = replace_newlines(&buffer);
        string_of(&flat)
    }
}

} // verus!
