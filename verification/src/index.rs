//! The index in its two states, and what is decided during an ingest.

use crate::checksum::{Checksum, ChecksumMap};
use crate::errors::LittIndexError;
use crate::json::{
    index_of_words, page_index_json, page_words_json, parse_page_index, parsed_page_words,
    words_of_index,
};
use crate::messages::IndexMessage;
use crate::page_index::{create_page_index, page_index_of, PageIndex};
use crate::schema::{Field, SearchSchema};
use crate::text::{
    append_str, clone_strings, ends_with, grapheme_clusters, is_suffix, string_of, strings_view,
};
use crate::text_map::TextMap;
use vstd::prelude::*;

verus! {

/// An index over the documents below one directory, in one of its two states. While it
/// is `Writing`, documents can be added; while it is `Reading`, it can be searched, and
/// it knows which documents the last ingest could not take and how many pages it added.
pub enum Index {
    Writing { schema: SearchSchema, documents_path: String },
    Reading {
        schema: SearchSchema,
        documents_path: String,
        failed_documents: Vec<String>,
        added_pages: u64,
    },
}

/// What an `Index` holds, as mathematical values.
pub enum IndexView {
    Writing { schema: SearchSchema, documents_path: Seq<char> },
    Reading {
        schema: SearchSchema,
        documents_path: Seq<char>,
        failed_documents: Seq<Seq<char>>,
        added_pages: u64,
    },
}

impl View for Index {
    type V = IndexView;

    open spec fn view(&self) -> IndexView {
        match *self {
            Index::Writing { schema, documents_path } => IndexView::Writing {
                schema: schema,
                documents_path: documents_path@,
            },
            Index::Reading {
                schema,
                documents_path,
                failed_documents,
                added_pages,
            } => IndexView::Reading {
                schema: schema,
                documents_path: documents_path@,
                failed_documents: strings_view(failed_documents@),
                added_pages: added_pages,
            },
        }
    }
}

impl IndexView {
    /// The documents root.
    pub open spec fn root(self) -> Seq<char> {
        match self {
            IndexView::Writing { documents_path, .. } => documents_path,
            IndexView::Reading { documents_path, .. } => documents_path,
        }
    }

    /// The fields of the index's pages.
    pub open spec fn fields(self) -> SearchSchema {
        match self {
            IndexView::Writing { schema, .. } => schema,
            IndexView::Reading { schema, .. } => schema,
        }
    }

    /// The state that a reading index enters to take documents.
    pub open spec fn writing(self) -> IndexView {
        IndexView::Writing { schema: self.fields(), documents_path: self.root() }
    }

    /// The state that a writing index enters when an ingest has ended, has left the given
    /// reports of failed documents and has added the given number of pages.
    pub open spec fn reading(self, failed_documents: Seq<Seq<char>>, added_pages: u64) -> IndexView {
        IndexView::Reading {
            schema: self.fields(),
            documents_path: self.root(),
            failed_documents: failed_documents,
            added_pages: added_pages,
        }
    }

    /// The state of an index that was opened: it reads, no document has failed and no
    /// page was added.
    pub open spec fn opened(schema: SearchSchema, documents_path: Seq<char>) -> IndexView {
        IndexView::Reading {
            schema: schema,
            documents_path: documents_path,
            failed_documents: Seq::empty(),
            added_pages: 0,
        }
    }
}

/// What has to be done to the store before a reload ingests anew.
#[derive(Debug, Clone, Copy, PartialEq, Eq, Structural)]
pub enum StoreAction {
    DeleteAllDocuments,
    RemoveChecksumMap,
}

impl Index {
    /// The index over a store that was just created below `path`: it is `Writing`.
    pub fn create(path: &str, schema: SearchSchema) -> (index: Index)
        ensures
            index@ == (IndexView::Writing { schema: schema, documents_path: path@ }),
    {
        Index::Writing { schema, documents_path: path.to_owned() }
    }

    /// The index over a store that was found below `path`: it is `Reading`, no document
    /// has failed and no page was added.
    pub fn open(path: &str, schema: SearchSchema) -> (index: Index)
        ensures
            index@ == IndexView::opened(schema, path@),
    {
        let index = Index::Reading {
            schema,
            documents_path: path.to_owned(),
            failed_documents: Vec::new(),
            added_pages: 0,
        };
        assert(index@ =~= IndexView::opened(schema, path@)) by {
            assert(strings_view(Seq::<String>::empty()) =~= Seq::<Seq<char>>::empty());
        }
        index
    }

    /// The index below `path` after an attempt to create its store: `Writing` where the
    /// store was created, `Reading` where the attempt failed and the store there was
    /// opened instead.
    pub fn open_or_create(path: &str, schema: SearchSchema, created: bool) -> (index: Index)
        ensures
            created ==> index@ == (IndexView::Writing { schema: schema, documents_path: path@ }),
            !created ==> index@ == IndexView::opened(schema, path@),
    {
        if created {
            Index::create(path, schema)
        } else {
            Index::open(path, schema)
        }
    }

    /// The documents root.
    pub fn documents_path(&self) -> (path: &String)
        ensures
            path@ == self@.root(),
    {
        match self {
            Index::Writing { documents_path, .. } => documents_path,
            Index::Reading { documents_path, .. } => documents_path,
        }
    }

    /// Succeeds on an index that is `Writing`, the state in which documents are added.
    pub fn writer(&self) -> (result: Result<(), LittIndexError>)
        ensures
            self@ is Writing ==> result is Ok,
            !(self@ is Writing) ==> (result matches Err(e) && e.is_state_error("Writing"@)),
    {
        match self {
            Index::Writing { .. } => Ok(()),
            Index::Reading { .. } => Err(LittIndexError::wrong_state("Writing")),
        }
    }

    /// Succeeds on an index that is `Reading`, the state in which it can be searched.
    pub fn searcher(&self) -> (result: Result<(), LittIndexError>)
        ensures
            self@ is Reading ==> result is Ok,
            !(self@ is Reading) ==> (result matches Err(e) && e.is_state_error("Reading"@)),
    {
        match self {
            Index::Reading { .. } => Ok(()),
            Index::Writing { .. } => Err(LittIndexError::wrong_state("Reading")),
        }
    }

    /// The fields that a query looks at where it names none, for an index that can be
    /// searched.
    pub fn query_parser(&self) -> (result: Result<Vec<Field>, LittIndexError>)
        ensures
            self@ is Reading ==> (result matches Ok(fields) && fields@ == seq![
                self@.fields().title,
                self@.fields().body,
            ]),
            !(self@ is Reading) ==> (result matches Err(e) && e.is_state_error("Reading"@)),
    {
        match self {
            Index::Reading { schema, .. } => Ok(schema.default_fields()),
            Index::Writing { .. } => Err(LittIndexError::wrong_state("Reading")),
        }
    }

    /// The documents that the last ingest could not take, each as one line with the
    /// document's path and the error.
    pub fn failed_documents(&self) -> (result: Result<Vec<String>, LittIndexError>)
        ensures
            self@ matches IndexView::Reading { failed_documents, .. } ==> (result matches Ok(failed)
                && strings_view(failed@) == failed_documents),
            !(self@ is Reading) ==> (result matches Err(e) && e.is_state_error("Reading"@)),
    {
        match self {
            Index::Reading { failed_documents, .. } => Ok(clone_strings(failed_documents)),
            Index::Writing { .. } => Err(LittIndexError::wrong_state("Reading")),
        }
    }

    /// The number of pages that the last ingest added: those of the documents that it took
    /// without failure.
    pub fn added_pages(&self) -> (result: Result<u64, LittIndexError>)
        ensures
            self@ matches IndexView::Reading { added_pages, .. } ==> result == Ok::<
                u64,
                LittIndexError,
            >(added_pages),
            !(self@ is Reading) ==> (result matches Err(e) && e.is_state_error("Reading"@)),
    {
        match self {
            Index::Reading { added_pages, .. } => Ok(*added_pages),
            Index::Writing { .. } => Err(LittIndexError::wrong_state("Reading")),
        }
    }

    /// Takes a reading index to the state in which documents are added, to add what is
    /// new or has changed below its root. What the store holds stays.
    pub fn update(self) -> (result: Result<Index, LittIndexError>)
        ensures
            self@ is Reading ==> (result matches Ok(index) && index@ == self@.writing()),
            !(self@ is Reading) ==> (result matches Err(e) && e.is_state_error("Reading"@)),
    {
        match self {
            Index::Reading { schema, documents_path, .. } => Ok(
                Index::Writing { schema, documents_path },
            ),
            Index::Writing { .. } => Err(LittIndexError::wrong_state("Reading")),
        }
    }

    /// Takes a reading index to the state in which documents are added, to add every
    /// document below its root anew. Before the ingest begins, all documents of the
    /// store are deleted and the stored checksums are removed, in this order.
    pub fn reload(self) -> (result: Result<(Index, Vec<StoreAction>), LittIndexError>)
        ensures
            self@ is Reading ==> (result matches Ok((index, actions)) && index@ == self@.writing()
                && actions@ == seq![StoreAction::DeleteAllDocuments, StoreAction::RemoveChecksumMap]),
            !(self@ is Reading) ==> (result matches Err(e) && e.is_state_error("Reading"@)),
    {
        match self {
            Index::Reading { schema, documents_path, .. } => {
                let mut actions: Vec<StoreAction> = Vec::new();
                actions.push(StoreAction::DeleteAllDocuments);
                actions.push(StoreAction::RemoveChecksumMap);
                Ok((Index::Writing { schema, documents_path }, actions))
            },
            Index::Writing { .. } => Err(LittIndexError::wrong_state("Reading")),
        }
    }
}

/// A file found below the documents root: its name, its path, and its path relative to
/// the root, which is missing where the path does not lie below the root.
pub struct SourceEntry {
    pub file_name: String,
    pub path: String,
    pub relative_path: Option<String>,
}

/// How a source document is cut into pages.
#[derive(Debug, Clone, Copy, PartialEq, Eq, Structural)]
pub enum DocumentKind {
    /// Page by page, by the text extractor.
    Pdf,
    /// As a single page that holds the whole file.
    Text,
}

/// What is to be done with a source file during ingest.
pub enum FileAction<'a> {
    /// The file is new or has changed: its pages are to be added, and its checksum is
    /// to be taken afterwards.
    Add { message: IndexMessage<'a> },
    /// The file is as the index knows it: nothing is added, and its checksum stays.
    Skip { message: IndexMessage<'a>, path: String, checksum: Checksum },
}

/// One page as the index stores it.
pub struct PageDocument {
    /// The source document's path relative to the documents root.
    pub title: String,
    /// The path of the file that holds the page's text.
    pub path: String,
    /// The page's number within its document, counted from 1.
    pub page: u64,
    /// The page's text.
    pub body: String,
}

/// Whether a file of this name is a document to index: its name ends in `pdf`, `md` or
/// `txt`, in lower case.
pub open spec fn is_document_name(file_name: Seq<char>) -> bool {
    is_suffix("pdf"@, file_name) || is_suffix("md"@, file_name) || is_suffix("txt"@, file_name)
}

/// The entries of `entries` that are documents to index, in their order.
pub open spec fn document_entries(entries: Seq<SourceEntry>) -> Seq<SourceEntry> {
    entries.filter(|entry: SourceEntry| is_document_name(entry.file_name@))
}

/// What is stored for `path`, if anything.
pub open spec fn stored_for(stored: Map<Seq<char>, Checksum>, path: Seq<char>) -> Option<
    Checksum,
> {
    if stored.dom().contains(path) {
        Some(stored[path])
    } else {
        None
    }
}

/// What the stored checksums, if there are any, hold for `path`.
pub open spec fn existing_checksum(checksum_map: Option<&ChecksumMap>, path: Seq<char>) -> Option<
    Checksum,
> {
    match checksum_map {
        Some(stored) => stored_for(stored@, path),
        None => None,
    }
}

/// Whether a file is as the index knows it: a checksum is stored for it, the file's
/// checksum could be taken, and the two are equal.
pub open spec fn is_unchanged(existing: Option<Checksum>, current: Option<Checksum>) -> bool {
    existing is Some && current == existing
}

/// The items of `items` in the opposite order.
pub fn reversed<T>(items: Vec<T>) -> (turned: Vec<T>)
    ensures
        turned@.len() == items@.len(),
        forall|k: int| 0 <= k < turned@.len() ==> turned@[k] == items@[items@.len() - 1 - k],
{
    let ghost all = items@;
    let mut items = items;
    let mut turned: Vec<T> = Vec::new();
    while items.len() > 0
        invariant
            items.len() + turned.len() == all.len(),
            items@ == all.take(items.len() as int),
            forall|k: int| 0 <= k < turned@.len() ==> turned@[k] == all[all.len() - 1 - k],
        decreases items.len(),
    {
        let item = items.pop().unwrap();
        turned.push(item);
        assert(items@ =~= all.take(items.len() as int));
    }
    turned
}

/// Whether a file of this name is a document to index.
pub fn is_document_file(file_name: &str) -> (b: bool)
    ensures
        b == is_document_name(file_name@),
{
    ends_with(file_name, "pdf") || ends_with(file_name, "md") || ends_with(file_name, "txt")
}

/// Whether the stored checksum of a file equals the one that the file has now.
pub fn checksum_is_equal(existing: Option<Checksum>, current: Option<Checksum>) -> (b: bool)
    ensures
        b == is_unchanged(existing, current),
{
    match (existing, current) {
        (Some(stored), Some(found)) => stored.length == found.length && stored.modified_secs
            == found.modified_secs && stored.modified_nanos == found.modified_nanos,
        _ => false,
    }
}

impl Index {
    /// Of the files found below the documents root, those that are documents to index,
    /// in the order in which they were found.
    pub fn collect_document_files(&self, entries: Vec<SourceEntry>) -> (documents: Vec<SourceEntry>)
        ensures
            documents@ == document_entries(entries@),
    {
        let ghost all = entries@;
        let mut entries = reversed(entries);
        let mut documents: Vec<SourceEntry> = Vec::new();
        proof {
            assert(all.take(0) =~= Seq::<SourceEntry>::empty());
        }
        while entries.len() > 0
            invariant
                entries.len() <= all.len(),
                forall|k: int|
                    0 <= k < entries.len() ==> entries@[k] == all[all.len() - 1 - k],
                documents@ == document_entries(all.take(all.len() - entries.len())),
            decreases entries.len(),
        {
            let ghost done = all.len() - entries.len();
            let entry = entries.pop().unwrap();
            proof {
                assert(entry == all[done]);
                assert(all.take(done + 1) =~= all.take(done).push(entry));
                lemma_filter_push(all.take(done), entry);
            }
            if is_document_file(entry.file_name.as_str()) {
                documents.push(entry);
            }
        }
        proof {
            assert(all.take(all.len() as int) =~= all);
        }
        documents
    }
}

/// How the ingest of one source file ended: with the file's checksum, or with an error.
pub struct FileOutcome {
    /// The file's path, under which its checksum is stored.
    pub path: String,
    /// The file's path relative to the documents root, where it has one.
    pub relative_path: Option<String>,
    /// The number of pages that were added for the file; none for a file that was
    /// skipped.
    pub pages: u64,
    pub result: Result<Checksum, LittIndexError>,
}

/// The line that reports a document that could not be taken.
pub open spec fn failure_record(path: Seq<char>, error: Seq<char>) -> Seq<char> {
    "path: "@ + path + ", error: "@ + error
}

/// The path by which a file is reported: its path relative to the documents root, or
/// its whole path where it does not lie below the root.
pub open spec fn reported_path(outcome: FileOutcome) -> Seq<char> {
    match outcome.relative_path {
        Some(relative) => relative@,
        None => outcome.path@,
    }
}

/// The number of pages added for the files that did not fail. A file that failed
/// counts no page.
pub open spec fn pages_of(outcomes: Seq<FileOutcome>) -> nat
    decreases outcomes.len(),
{
    if outcomes.len() == 0 {
        0
    } else {
        let last = outcomes.last();
        match last.result {
            Ok(_) => pages_of(outcomes.drop_last()) + last.pages as nat,
            Err(_) => pages_of(outcomes.drop_last()),
        }
    }
}

/// A number of pages as the index keeps it: the number itself, or the largest number
/// that it can keep.
pub open spec fn kept_pages(pages: nat) -> u64 {
    if pages <= u64::MAX {
        pages as u64
    } else {
        u64::MAX
    }
}

/// The checksums of the files that were taken or skipped; of two outcomes for one path
/// the later counts.
pub open spec fn checksums_of(outcomes: Seq<FileOutcome>) -> Map<Seq<char>, Checksum>
    decreases outcomes.len(),
{
    if outcomes.len() == 0 {
        Map::empty()
    } else {
        let last = outcomes.last();
        match last.result {
            Ok(checksum) => checksums_of(outcomes.drop_last()).insert(last.path@, checksum),
            Err(_) => checksums_of(outcomes.drop_last()),
        }
    }
}

/// The reports of the files that could not be taken, in the outcomes' order.
pub open spec fn failures_of(outcomes: Seq<FileOutcome>) -> Seq<Seq<char>>
    decreases outcomes.len(),
{
    if outcomes.len() == 0 {
        Seq::empty()
    } else {
        let last = outcomes.last();
        match last.result {
            Ok(_) => failures_of(outcomes.drop_last()),
            Err(error) => failures_of(outcomes.drop_last()).push(
                failure_record(reported_path(last), error.text()),
            ),
        }
    }
}

/// Whether an outcome is that of the file `entry`.
pub open spec fn is_outcome_of(outcome: FileOutcome, entry: SourceEntry) -> bool {
    &&& outcome.path@ == entry.path@
    &&& match (outcome.relative_path, entry.relative_path) {
        (Some(reported), Some(relative)) => reported@ == relative@,
        (None, None) => true,
        _ => false,
    }
}

fn outcome_of(entry: &SourceEntry, pages: u64, result: Result<Checksum, LittIndexError>) -> (outcome:
    FileOutcome)
    ensures
        is_outcome_of(outcome, *entry),
        outcome.pages == pages,
        outcome.result == result,
{
    let relative_path = match &entry.relative_path {
        Some(relative) => Some(relative.clone()),
        None => None,
    };
    FileOutcome { path: entry.path.clone(), relative_path, pages, result }
}

impl FileOutcome {
    /// The outcome of a file that was skipped: it keeps its checksum, and no page was
    /// added for it.
    pub fn skipped(entry: &SourceEntry, checksum: Checksum) -> (outcome: FileOutcome)
        ensures
            is_outcome_of(outcome, *entry),
            outcome.pages == 0,
            outcome.result == Ok::<Checksum, LittIndexError>(checksum),
    {
        outcome_of(entry, 0, Ok(checksum))
    }

    /// The outcome of a file whose pages were to be added, with the pages that the store
    /// is to take. Where the ingest of the file ended with its checksum, the store takes
    /// all its pages; where it ended with an error, the store takes none of them.
    pub fn of_ingest(
        entry: &SourceEntry,
        ingested: Result<Checksum, LittIndexError>,
        pages: Vec<PageDocument>,
    ) -> (taken: (FileOutcome, Vec<PageDocument>))
        ensures
            is_outcome_of(taken.0, *entry),
            taken.0.result == ingested,
            ingested is Ok ==> taken.1@ == pages@ && taken.0.pages == kept_pages(pages@.len()),
            ingested is Err ==> taken.1@.len() == 0 && taken.0.pages == 0,
    {
        match ingested {
            Ok(checksum) => {
                let count = pages.len() as u64;
                (outcome_of(entry, count, Ok(checksum)), pages)
            },
            Err(error) => (outcome_of(entry, 0, Err(error)), Vec::new()),
        }
    }
}

/// The error of a path that does not lie below the documents root.
pub open spec fn is_prefix_error(error: LittIndexError) -> bool {
    error matches LittIndexError::StripPrefixError(m) && m@ == "prefix not found"@
}

impl Index {
    /// Decides what is done with one source file. `checksum_map` holds the checksums that
    /// the index has stored, if any are stored; `current_checksum` is what the file has
    /// now, or nothing where it could not be read. A file that is as the index knows it
    /// is skipped and keeps its stored checksum; every other file is added.
    pub fn process_file<'a>(
        &self,
        entry: &'a SourceEntry,
        checksum_map: Option<&ChecksumMap>,
        current_checksum: Option<Checksum>,
    ) -> (result: Result<FileAction<'a>, LittIndexError>)
        ensures
            !(self@ is Writing) ==> (result matches Err(e) && e.is_state_error("Writing"@)),
            self@ is Writing && entry.relative_path is None ==> (result matches Err(e)
                && is_prefix_error(e)),
            self@ is Writing && entry.relative_path is Some && is_unchanged(
                existing_checksum(checksum_map, entry.path@),
                current_checksum,
            ) ==> (result matches Ok(
                FileAction::Skip {
                    message: IndexMessage::SkippedExisting { document_name },
                    path,
                    checksum,
                },
            ) && document_name@ == entry.relative_path->0@ && path@ == entry.path@ && Some(checksum)
                == existing_checksum(checksum_map, entry.path@)),
            self@ is Writing && entry.relative_path is Some && !is_unchanged(
                existing_checksum(checksum_map, entry.path@),
                current_checksum,
            ) ==> (result matches Ok(FileAction::Add { message: IndexMessage::Adding { document_name } })
                && document_name@ == entry.relative_path->0@),
    {
        match self {
            Index::Reading { .. } => Err(LittIndexError::wrong_state("Writing")),
            Index::Writing { .. } => {
                match &entry.relative_path {
                    None => Err(LittIndexError::StripPrefixError("prefix not found".to_owned())),
                    Some(relative_path) => {
                        let document_name = relative_path.as_str();
                        let existing = match checksum_map {
                            Some(stored) => match stored.get(entry.path.as_str()) {
                                Some(checksum) => Some(*checksum),
                                None => None,
                            },
                            None => None,
                        };
                        if checksum_is_equal(existing, current_checksum) {
                            Ok(
                                FileAction::Skip {
                                    message: IndexMessage::SkippedExisting { document_name },
                                    path: entry.path.clone(),
                                    checksum: existing.unwrap(),
                                },
                            )
                        } else {
                            Ok(FileAction::Add { message: IndexMessage::Adding { document_name } })
                        }
                    },
                }
            },
        }
    }

    /// Decides how a source document is cut into pages: a file whose path ends in `pdf`
    /// page by page, every other file as a single page.
    pub fn add_document(&self, entry: &SourceEntry) -> (result: Result<DocumentKind, LittIndexError>)
        ensures
            !(self@ is Writing) ==> (result matches Err(e) && e.is_state_error("Writing"@)),
            self@ is Writing ==> result == Ok::<DocumentKind, LittIndexError>(
                if is_suffix("pdf"@, entry.path@) {
                    DocumentKind::Pdf
                } else {
                    DocumentKind::Text
                },
            ),
    {
        match self {
            Index::Reading { .. } => Err(LittIndexError::wrong_state("Writing")),
            Index::Writing { .. } => {
                if ends_with(entry.path.as_str(), "pdf") {
                    Ok(DocumentKind::Pdf)
                } else {
                    Ok(DocumentKind::Text)
                }
            },
        }
    }

    /// The record of one page for the store: the document's path relative to the root as
    /// its title, the path of the page's text file, the page's number and its text.
    pub fn add_page(
        &self,
        entry: &SourceEntry,
        page_number: u64,
        page_path: &str,
        page_body: &str,
    ) -> (result: Result<PageDocument, LittIndexError>)
        ensures
            !(self@ is Writing) ==> (result matches Err(e) && e.is_state_error("Writing"@)),
            self@ is Writing && entry.relative_path is None ==> (result matches Err(e)
                && is_prefix_error(e)),
            self@ is Writing && entry.relative_path is Some ==> (result matches Ok(document)
                && document.title@ == entry.relative_path->0@ && document.path@ == page_path@
                && document.page == page_number && document.body@ == page_body@),
    {
        match self {
            Index::Reading { .. } => Err(LittIndexError::wrong_state("Writing")),
            Index::Writing { .. } => {
                match &entry.relative_path {
                    None => Err(LittIndexError::StripPrefixError("prefix not found".to_owned())),
                    Some(relative_path) => Ok(
                        PageDocument {
                            title: relative_path.clone(),
                            path: page_path.to_owned(),
                            page: page_number,
                            body: page_body.to_owned(),
                        },
                    ),
                }
            },
        }
    }

    /// Ends an ingest. The checksums of the files that were taken or skipped replace the
    /// stored ones; the files that failed are left out of them, so that the next ingest
    /// tries them again, and are reported by the index, which is `Reading` from now on.
    /// The index counts the pages of the files that were taken.
    pub fn add_all_documents(self, outcomes: &Vec<FileOutcome>) -> (result: Result<
        (Index, ChecksumMap),
        LittIndexError,
    >)
        ensures
            !(self@ is Writing) ==> (result matches Err(e) && e.is_state_error("Writing"@)),
            self@ is Writing ==> (result matches Ok((index, checksums)) && index@
                == self@.reading(failures_of(outcomes@), kept_pages(pages_of(outcomes@)))
                && checksums@ == checksums_of(outcomes@)),
    {
        match self {
            Index::Reading { .. } => Err(LittIndexError::wrong_state("Writing")),
            Index::Writing { schema, documents_path } => {
                let mut checksums: ChecksumMap = TextMap::new();
                let mut failed_documents: Vec<String> = Vec::new();
                let mut added_pages: u64 = 0;
                let mut i: usize = 0;
                proof {
                    assert(outcomes@.take(0) =~= Seq::<FileOutcome>::empty());
                    assert(strings_view(failed_documents@) =~= Seq::<Seq<char>>::empty());
                }
                while i < outcomes.len()
                    invariant
                        i <= outcomes.len(),
                        checksums@ == checksums_of(outcomes@.take(i as int)),
                        strings_view(failed_documents@) == failures_of(outcomes@.take(i as int)),
                        added_pages == kept_pages(pages_of(outcomes@.take(i as int))),
                    decreases outcomes.len() - i,
                {
                    let outcome = &outcomes[i];
                    proof {
                        assert(outcomes@.take(i + 1).drop_last() =~= outcomes@.take(i as int));
                    }
                    match &outcome.result {
                        Ok(checksum) => {
                            checksums.insert(outcome.path.clone(), *checksum);
                            added_pages = if outcome.pages > u64::MAX - added_pages {
                                u64::MAX
                            } else {
                                added_pages + outcome.pages
                            };
                        },
                        Err(error) => {
                            let mut line: Vec<char> = Vec::new();
                            append_str(&mut line, "path: ");
                            match &outcome.relative_path {
                                Some(relative) => append_str(&mut line, relative.as_str()),
                                None => append_str(&mut line, outcome.path.as_str()),
                            }
                            append_str(&mut line, ", error: ");
                            let text = error.message();
                            append_str(&mut line, text.as_str());
                            let ghost before = failed_documents@;
                            let report = string_of(&line);
                            failed_documents.push(report);
                            assert(strings_view(failed_documents@) =~= strings_view(before).push(
                                report@,
                            ));
                        },
                    }
                    i += 1;
                }
                proof {
                    assert(outcomes@.take(outcomes.len() as int) =~= outcomes@);
                }
                Ok(
                    (
                        Index::Reading { schema, documents_path, failed_documents, added_pages },
                        checksums,
                    ),
                )
            },
        }
    }
}

impl Index {
    /// The page-word index of a page with the text `body`.
    pub fn create_page_index(body: &str) -> (result: Result<PageIndex, LittIndexError>)
        ensures
            result matches Ok(index) && index@ == page_index_of(grapheme_clusters(body@)),
    {
        Ok(create_page_index(body))
    }

    /// The page-word index that the JSON text `data` holds.
    pub fn page_index(&self, data: &str) -> (result: Result<PageIndex, LittIndexError>)
        ensures
            parsed_page_words(data@) matches Some(words) ==> (result matches Ok(index) && index@
                == index_of_words(words)),
            parsed_page_words(data@) is None ==> result matches Err(
                LittIndexError::SerdeJsonError(_),
            ),
    {
        parse_page_index(data)
    }

    /// The JSON text in which a page-word index is stored.
    pub fn store_page_index(pindex: &PageIndex) -> (result: Result<String, LittIndexError>)
        ensures
            result matches Ok(json) && json@ == page_words_json(words_of_index(pindex@)),
    {
        page_index_json(pindex)
    }
}

/// The documents among some entries and one more are those among the entries, and the
/// one more behind them where it is a document.
pub proof fn lemma_filter_push(entries: Seq<SourceEntry>, entry: SourceEntry)
    ensures
        document_entries(entries.push(entry)) == if is_document_name(entry.file_name@) {
            document_entries(entries).push(entry)
        } else {
            document_entries(entries)
        },
{
    reveal(Seq::filter);
    assert(entries.push(entry).drop_last() =~= entries);
}

} // verus!
