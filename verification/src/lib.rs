//! A search engine for the documents below a directory: it cuts PDF, text and Markdown
//! files into pages, keeps an index of the pages' words, and answers exact and fuzzy
//! queries with previews of the pages found.

use vstd::prelude::*;

pub mod checksum;
pub mod cli;
pub mod errors;
pub mod fuzzy;
pub mod fuzzy_laws;
pub mod grouped;
pub mod index;
pub mod ingest_laws;
pub mod interactive;
pub mod json;
pub mod messages;
pub mod numbers;
pub mod page_index;
pub mod page_index_laws;
pub mod pages;
pub mod schema;
pub mod search;
pub mod search_laws;
pub mod snippet;
pub mod text;
pub mod text_map;
pub mod tracker;

verus! {

/// The directory, below a documents root, that holds everything an index persists.
pub const LITT_DIRECTORY_NAME: &'static str = ".litt";

/// The directory, below the litt directory, that holds the store's segments.
pub const INDEX_DIRECTORY_NAME: &'static str = "index";

/// The directory, below the litt directory, that holds the pages' texts and words.
pub const PAGES_DIRECTORY_NAME: &'static str = "pages";

/// The file, below the litt directory, that holds the checksums of the source files.
pub const CHECK_SUM_MAP_FILENAME: &'static str = "checksum.json";

/// The largest number of characters of the preview that the store cuts for an exact
/// query.
pub const PREVIEW_LENGTH: usize = 70;

/// The memory that the store's writer may use, in bytes, for all its threads together.
pub const TARGET_MEMORY_BYTES: usize = 100_000_000;

} // verus!
