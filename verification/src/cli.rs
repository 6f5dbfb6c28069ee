//! The arguments of the command line, and what they ask the program to do.

use crate::interactive::SearchOptions;
use crate::pages::decimal;
use crate::text::{decimal_digits, ends_with, is_suffix};
use vstd::prelude::*;

verus! {

/// The arguments of the command line.
pub struct Cli {
    /// The index to work on.
    pub litt_index: Option<String>,
    /// The query; a session is started where it is empty.
    pub term: String,
    /// The documents root at which a new index is to be created.
    pub init: String,
    /// Whether the index is to take what is new or has changed.
    pub update: bool,
    /// Whether the index is to take all its documents anew.
    pub reload: bool,
    /// Whether the index is to be removed.
    pub remove: bool,
    /// Whether the indices are to be listed.
    pub list: bool,
    /// The number of hits to leave out.
    pub offset: usize,
    /// The largest number of hits to show.
    pub limit: usize,
    /// Whether the words of the query may be off by some edits.
    pub fuzzy: bool,
    /// The number of edits allowed in a fuzzy search.
    pub distance: u8,
}

/// What the program is asked to do.
#[derive(Debug, Clone, Copy, PartialEq, Eq, Structural)]
pub enum Command {
    /// List the indices.
    List,
    /// Say how the program is used: no index was named.
    Help,
    /// Create the index at the documents root given with `init`.
    Create,
    /// Remove the index.
    Remove,
    /// Take what is new or has changed.
    Update,
    /// Take all documents anew.
    Reload,
    /// Search for the query, once.
    Search(SearchOptions),
    /// Start a session.
    Interactive(SearchOptions),
}

/// The options with which a session begins.
pub open spec fn session_options() -> SearchOptions {
    SearchOptions { limit: 10, offset: 0, fuzzy: false, distance: 2 }
}

/// What the arguments ask for. Listing comes first; everything else needs an index;
/// then come creating, removing, updating and reloading, in this order; a query is
/// searched with the options given; without a query a session begins.
pub open spec fn command_of(cli: Cli) -> Command {
    if cli.list {
        Command::List
    } else if cli.litt_index is None {
        Command::Help
    } else if cli.init@.len() > 0 {
        Command::Create
    } else if cli.remove {
        Command::Remove
    } else if cli.update {
        Command::Update
    } else if cli.reload {
        Command::Reload
    } else if cli.term@.len() > 0 {
        Command::Search(
            SearchOptions {
                limit: cli.limit,
                offset: cli.offset,
                fuzzy: cli.fuzzy,
                distance: cli.distance,
            },
        )
    } else {
        Command::Interactive(session_options())
    }
}

impl Cli {
    /// What the arguments ask for.
    pub fn command(&self) -> (command: Command)
        ensures
            command == command_of(*self),
    {
        if self.list {
            Command::List
        } else if self.litt_index.is_none() {
            Command::Help
        } else if !self.init.as_str().is_empty() {
            Command::Create
        } else if self.remove {
            Command::Remove
        } else if self.update {
            Command::Update
        } else if self.reload {
            Command::Reload
        } else if !self.term.as_str().is_empty() {
            Command::Search(
                SearchOptions {
                    limit: self.limit,
                    offset: self.offset,
                    fuzzy: self.fuzzy,
                    distance: self.distance,
                },
            )
        } else {
            Command::Interactive(SearchOptions { limit: 10, offset: 0, fuzzy: false, distance: 2 })
        }
    }
}

/// Numbers the pages that a search has shown, from 1 on and in the order in which they
/// were shown, so that a page can be opened again by its number. A page is given by the
/// path of its document, its page number and the word to look for on it.
pub fn number_results(found: &Vec<(String, u32, String)>) -> (table: Vec<
    (u32, (String, u32, String)),
>)
    requires
        found.len() <= u32::MAX,
    ensures
        table@.len() == found@.len(),
        forall|k: int|
            0 <= k < table@.len() ==> (#[trigger] table@[k]).0 == k + 1 && table@[k].1
                == found@[k],
{
    let mut table: Vec<(u32, (String, u32, String))> = Vec::new();
    let mut number: u32 = 0;
    let mut i: usize = 0;
    while i < found.len()
        invariant
            i <= found.len(),
            found.len() <= u32::MAX,
            number == i,
            table@.len() == i,
            forall|k: int|
                0 <= k < i ==> (#[trigger] table@[k]).0 == k + 1 && table@[k].1 == found@[k],
        decreases found.len() - i,
    {
        number = number + 1;
        let page = &found[i];
        table.push((number, (page.0.clone(), page.1, page.2.clone())));
        i += 1;
    }
    table
}

/// Whether a document is opened by the PDF viewer, at a page: its path ends in `pdf`.
pub fn opens_as_pdf(path: &str) -> (b: bool)
    ensures
        b == is_suffix("pdf"@, path@),
{
    ends_with(path, "pdf")
}

/// The arguments with which the PDF viewer opens the document at `path` on page `page`
/// and looks for `term` there.
pub fn viewer_arguments(path: &str, page: u32, term: &str) -> (arguments: Vec<String>)
    ensures
        arguments@.len() == 5,
        arguments@[0]@ == path@,
        arguments@[1]@ == "-P"@,
        arguments@[2]@ == decimal_digits(page as nat),
        arguments@[3]@ == "-f"@,
        arguments@[4]@ == term@,
{
    let mut arguments: Vec<String> = Vec::new();
    arguments.push(path.to_owned());
    arguments.push("-P".to_owned());
    arguments.push(decimal(page as u64));
    arguments.push("-f".to_owned());
    arguments.push(term.to_owned());
    arguments
}

} // verus!
