//! The pages of a document: their numbering, their files, and the extractor's arguments.

use crate::errors::LittIndexError;
use crate::text::{append_decimal, append_str, decimal_digits, string_of};
use vstd::prelude::*;

verus! {

/// The course of cutting one PDF into pages. The pages are extracted one by one, from
/// page 1 on, until the extractor fails for the first time.
#[derive(Debug, Clone, Copy, PartialEq, Eq, Structural)]
pub struct PageLoop {
    /// The number of pages extracted so far.
    pub pages: u64,
    /// Whether the extractor has failed.
    pub finished: bool,
}

/// The page to extract next, if any.
pub open spec fn next_page(state: PageLoop) -> Option<u64> {
    if state.finished || state.pages == u64::MAX {
        None
    } else {
        Some((state.pages + 1) as u64)
    }
}

/// The state after the extractor was run on the next page.
pub open spec fn after_extraction(state: PageLoop, succeeded: bool) -> PageLoop {
    if next_page(state) is None {
        state
    } else if succeeded {
        PageLoop { pages: (state.pages + 1) as u64, finished: false }
    } else {
        PageLoop { pages: state.pages, finished: true }
    }
}

/// The state after the extractor was run as often as `outcomes` is long, with these
/// outcomes.
pub open spec fn after_extractions(state: PageLoop, outcomes: Seq<bool>) -> PageLoop
    decreases outcomes.len(),
{
    if outcomes.len() == 0 {
        state
    } else {
        after_extraction(after_extractions(state, outcomes.drop_last()), outcomes.last())
    }
}

/// The number of successes before the first failure.
pub open spec fn leading_successes(outcomes: Seq<bool>) -> nat
    decreases outcomes.len(),
{
    if outcomes.len() == 0 || !outcomes[0] {
        0
    } else {
        1 + leading_successes(outcomes.drop_first())
    }
}

impl PageLoop {
    /// The state before any page was extracted.
    pub fn start() -> (state: PageLoop)
        ensures
            state == (PageLoop { pages: 0, finished: false }),
    {
        PageLoop { pages: 0, finished: false }
    }

    /// The page to extract next: the one behind the last page extracted, as long as the
    /// extractor has not failed.
    pub fn page(&self) -> (page: Option<u64>)
        ensures
            page == next_page(*self),
    {
        if self.finished || self.pages == u64::MAX {
            None
        } else {
            Some(self.pages + 1)
        }
    }

    /// Takes note of how the extractor ended on the next page. A success counts the
    /// page, a failure ends the loop.
    pub fn extracted(&mut self, succeeded: bool)
        ensures
            *final(self) == after_extraction(*old(self), succeeded),
    {
        if self.page().is_some() {
            if succeeded {
                self.pages = self.pages + 1;
            } else {
                self.finished = true;
            }
        }
    }
}

/// The pages of a document are numbered from 1 without a gap, and the loop ends at the
/// first failure: after any run of the extractor, as many pages count as it succeeded
/// before it first failed, and as long as it has not failed the next page is the one
/// behind them.
pub proof fn lemma_pages_are_contiguous(outcomes: Seq<bool>)
    requires
        outcomes.len() < u64::MAX,
    ensures
        after_extractions(PageLoop { pages: 0, finished: false }, outcomes).pages
            == leading_successes(outcomes),
        after_extractions(PageLoop { pages: 0, finished: false }, outcomes).finished
            == (leading_successes(outcomes) < outcomes.len()),
        leading_successes(outcomes) <= outcomes.len(),
    decreases outcomes.len(),
{
    if outcomes.len() > 0 {
        let before = outcomes.drop_last();
        lemma_pages_are_contiguous(before);
        lemma_leading_successes_push(before, outcomes.last());
        assert(before.push(outcomes.last()) =~= outcomes);
    }
}

/// One more outcome counts where it is a success and no failure came before it.
pub proof fn lemma_leading_successes_push(outcomes: Seq<bool>, last: bool)
    ensures
        leading_successes(outcomes) <= outcomes.len(),
        leading_successes(outcomes.push(last)) == if leading_successes(outcomes) == outcomes.len()
            && last {
            leading_successes(outcomes) + 1
        } else {
            leading_successes(outcomes)
        },
    decreases outcomes.len(),
{
    if outcomes.len() == 0 {
        assert(outcomes.push(last).drop_first() =~= outcomes);
    } else {
        lemma_leading_successes_push(outcomes.drop_first(), last);
        assert(outcomes.push(last).drop_first() =~= outcomes.drop_first().push(last));
    }
}

/// The number of the one page that a text or Markdown document consists of.
pub const TEXT_PAGE_NUMBER: u64 = 1;

/// The program that extracts the text of a page of a PDF.
pub const EXTRACTOR: &'static str = "pdftotext";

/// The error of a PDF whose text extractor could not be run.
pub fn extractor_missing() -> (error: LittIndexError)
    ensures
        error matches LittIndexError::PdfParseError(m) && m@
            == "Make sure pdftotext is set up correctly and installed (usually part of xpdf (Windows) or poppler (Linux/Mac))"@,
{
    LittIndexError::PdfParseError(
        "Make sure pdftotext is set up correctly and installed (usually part of xpdf (Windows) or poppler (Linux/Mac))".to_owned(),
    )
}

/// The name of the file that holds the text of page `page` of a document.
pub fn page_file_name(page: u64) -> (name: String)
    ensures
        name@ == decimal_digits(page as nat) + ".pageinfo"@,
{
    let mut buffer: Vec<char> = Vec::new();
    append_decimal(&mut buffer, page);
    append_str(&mut buffer, ".pageinfo");
    string_of(&buffer)
}

/// The name of the file that holds the page-word index of page `page` of a document.
pub fn page_index_file_name(page: u64) -> (name: String)
    ensures
        name@ == decimal_digits(page as nat) + ".pageindex"@,
{
    let mut buffer: Vec<char> = Vec::new();
    append_decimal(&mut buffer, page);
    append_str(&mut buffer, ".pageindex");
    string_of(&buffer)
}

/// The number `n` in decimal digits.
pub fn decimal(n: u64) -> (digits: String)
    ensures
        digits@ == decimal_digits(n as nat),
{
    let mut buffer: Vec<char> = Vec::new();
    append_decimal(&mut buffer, n);
    string_of(&buffer)
}

/// The arguments with which the text extractor writes page `page` of the document at
/// `source` to the file at `output`: the page as first and as last page, then the two
/// paths.
pub fn extractor_arguments(page: u64, source: &str, output: &str) -> (arguments: Vec<String>)
    ensures
        arguments@.len() == 6,
        arguments@[0]@ == "-f"@,
        arguments@[1]@ == decimal_digits(page as nat),
        arguments@[2]@ == "-l"@,
        arguments@[3]@ == decimal_digits(page as nat),
        arguments@[4]@ == source@,
        arguments@[5]@ == output@,
{
    let mut arguments: Vec<String> = Vec::new();
    arguments.push("-f".to_owned());
    arguments.push(decimal(page));
    arguments.push("-l".to_owned());
    arguments.push(decimal(page));
    arguments.push(source.to_owned());
    arguments.push(output.to_owned());
    arguments
}

} // verus!
