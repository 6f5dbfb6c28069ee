//! The errors of the index, of the search and of the registry, with their texts.

use crate::text::{append_str, string_of};
use vstd::prelude::*;

verus! {

/// What can go wrong with an index. An error of the file system, of the indexing
/// library, of a path or of the JSON reader is carried as its message.
#[derive(Debug, Clone, PartialEq, Eq)]
pub enum LittIndexError {
    CreationError(String),
    UpdateError(String),
    OpenError(String),
    ReloadError(String),
    WriteError(String),
    StateError(String),
    ReadError(String),
    PdfParseError(String),
    TxtParseError(String),
    IoError(String),
    TantivyError(String),
    StripPrefixError(String),
    SerdeJsonError(String),
    LockPoisoned(String),
}

/// A message between a leading text and a closing backquote.
pub open spec fn quoted(lead: Seq<char>, detail: Seq<char>) -> Seq<char> {
    lead + detail + "`"@
}

fn quote(lead: &str, detail: &String) -> (s: String)
    ensures
        s@ == quoted(lead@, detail@),
{
    let mut buffer: Vec<char> = Vec::new();
    append_str(&mut buffer, lead);
    append_str(&mut buffer, detail.as_str());
    append_str(&mut buffer, "`");
    string_of(&buffer)
}

impl LittIndexError {
    /// Whether this is the error of an operation that found the index in another state
    /// than `expected`.
    pub open spec fn is_state_error(self, expected: Seq<char>) -> bool {
        self matches LittIndexError::StateError(state) && state@ == expected
    }

    /// The error's text for a reader.
    pub open spec fn text(self) -> Seq<char> {
        match self {
            LittIndexError::CreationError(m) => quoted("Index Creation Error: `"@, m@),
            LittIndexError::UpdateError(m) => quoted("Error updating the index: `"@, m@),
            LittIndexError::OpenError(m) => quoted("Error opening existing index: `"@, m@),
            LittIndexError::ReloadError(m) => quoted("Error reloading index writer: `"@, m@),
            LittIndexError::WriteError(m) => quoted("Index Write Error: `"@, m@),
            LittIndexError::StateError(m) => quoted("Index is not in assumed state: `"@, m@),
            LittIndexError::ReadError(m) => quoted("Index Read Error: `"@, m@),
            LittIndexError::PdfParseError(m) => quoted("Error parsing PDF: `"@, m@),
            LittIndexError::TxtParseError(m) => quoted("Error parsing txt-file: `"@, m@),
            LittIndexError::IoError(m) => m@,
            LittIndexError::TantivyError(m) => m@,
            LittIndexError::StripPrefixError(m) => m@,
            LittIndexError::SerdeJsonError(m) => m@,
            LittIndexError::LockPoisoned(m) => "One of the locks is poisoned: "@ + m@,
        }
    }

    /// The error of an operation that needs the index in the state `expected`.
    pub fn wrong_state(expected: &str) -> (error: LittIndexError)
        ensures
            error.is_state_error(expected@),
    {
        LittIndexError::StateError(expected.to_owned())
    }

    /// The error's text for a reader.
    pub fn message(&self) -> (s: String)
        ensures
            s@ == self.text(),
    {
        match self {
            LittIndexError::CreationError(m) => quote("Index Creation Error: `", m),
            LittIndexError::UpdateError(m) => quote("Error updating the index: `", m),
            LittIndexError::OpenError(m) => quote("Error opening existing index: `", m),
            LittIndexError::ReloadError(m) => quote("Error reloading index writer: `", m),
            LittIndexError::WriteError(m) => quote("Index Write Error: `", m),
            LittIndexError::StateError(m) => quote("Index is not in assumed state: `", m),
            LittIndexError::ReadError(m) => quote("Index Read Error: `", m),
            LittIndexError::PdfParseError(m) => quote("Error parsing PDF: `", m),
            LittIndexError::TxtParseError(m) => quote("Error parsing txt-file: `", m),
            LittIndexError::IoError(m) => m.clone(),
            LittIndexError::TantivyError(m) => m.clone(),
            LittIndexError::StripPrefixError(m) => m.clone(),
            LittIndexError::SerdeJsonError(m) => m.clone(),
            LittIndexError::LockPoisoned(m) => {
                let mut buffer: Vec<char> = Vec::new();
                append_str(&mut buffer, "One of the locks is poisoned: ");
                append_str(&mut buffer, m.as_str());
                string_of(&buffer)
            },
        }
    }
}

/// What can go wrong with a search. An error of the file system, of the indexing library
/// or of its query parser is carried as its message.
#[derive(Debug, Clone, PartialEq, Eq)]
pub enum LittSearchError {
    InitError(String),
    SearchError(String),
    IoError(String),
    TantivyError(String),
    LittIndexError(LittIndexError),
    QueryParserError(String),
}

impl LittSearchError {
    /// Whether this is a search error with the text `detail`.
    pub open spec fn is_search_error(self, detail: Seq<char>) -> bool {
        self matches LittSearchError::SearchError(m) && m@ == detail
    }

    /// Whether this is the error of an operation that found the index in another state
    /// than `expected`.
    pub open spec fn is_state_error(self, expected: Seq<char>) -> bool {
        self matches LittSearchError::LittIndexError(inner) && inner.is_state_error(expected)
    }

    /// The error's text for a reader.
    pub open spec fn text(self) -> Seq<char> {
        match self {
            LittSearchError::InitError(m) => quoted("Error initializing new search: `"@, m@),
            LittSearchError::SearchError(m) => quoted("Error during search: `"@, m@),
            LittSearchError::IoError(m) => m@,
            LittSearchError::TantivyError(m) => m@,
            LittSearchError::LittIndexError(inner) => inner.text(),
            LittSearchError::QueryParserError(m) => m@,
        }
    }

    /// A search error with the text `detail`.
    pub fn search_error(detail: &str) -> (error: LittSearchError)
        ensures
            error.is_search_error(detail@),
    {
        LittSearchError::SearchError(detail.to_owned())
    }

    /// The error's text for a reader.
    pub fn message(&self) -> (s: String)
        ensures
            s@ == self.text(),
    {
        match self {
            LittSearchError::InitError(m) => quote("Error initializing new search: `", m),
            LittSearchError::SearchError(m) => quote("Error during search: `", m),
            LittSearchError::IoError(m) => m.clone(),
            LittSearchError::TantivyError(m) => m.clone(),
            LittSearchError::LittIndexError(inner) => inner.message(),
            LittSearchError::QueryParserError(m) => m.clone(),
        }
    }
}

/// What can go wrong with the registry of indices. An error of the file system or of the
/// JSON reader is carried as its message.
#[derive(Debug, Clone, PartialEq, Eq)]
pub enum LittIndexTrackerError {
    NotFound(String),
    IoError(String),
    SerdeJsonError(String),
}

impl LittIndexTrackerError {
    /// The error's text for a reader.
    pub open spec fn text(self) -> Seq<char> {
        match self {
            LittIndexTrackerError::NotFound(m) => "The given index `"@ + m@ + "` does not exist"@,
            LittIndexTrackerError::IoError(m) => m@,
            LittIndexTrackerError::SerdeJsonError(m) => m@,
        }
    }

    /// The error's text for a reader.
    pub fn message(&self) -> (s: String)
        ensures
            s@ == self.text(),
    {
        match self {
            LittIndexTrackerError::NotFound(m) => {
                let mut buffer: Vec<char> = Vec::new();
                append_str(&mut buffer, "The given index `");
                append_str(&mut buffer, m.as_str());
                append_str(&mut buffer, "` does not exist");
                string_of(&buffer)
            },
            LittIndexTrackerError::IoError(m) => m.clone(),
            LittIndexTrackerError::SerdeJsonError(m) => m.clone(),
        }
    }
}

} // verus!
