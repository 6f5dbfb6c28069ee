use litt::checksum::{Checksum, ChecksumMap};
use litt::errors::LittIndexError;
use litt::index::{
    checksum_is_equal, is_document_file, DocumentKind, FileAction, FileOutcome, Index, SourceEntry,
    StoreAction,
};
use litt::messages::IndexMessage;
use litt::pages::{
    decimal, extractor_arguments, extractor_missing, page_file_name, page_index_file_name, PageLoop,
    EXTRACTOR,
};
use litt::schema::{Field, FieldKind, FieldOptions, SearchSchema};

const TEST_DIR_NAME: &str = "resources";

fn entry(relative: &str) -> SourceEntry {
    SourceEntry {
        file_name: relative.rsplit('/').next().unwrap().to_string(),
        path: format!("{}/{}", TEST_DIR_NAME, relative),
        relative_path: Some(relative.to_string()),
    }
}

fn file_path(relative: &str) -> String {
    format!("{}/{}", TEST_DIR_NAME, relative)
}

fn checksum(length: u64, secs: u64) -> Checksum {
    Checksum { length, modified_secs: secs, modified_nanos: 17 }
}

fn outcome(path: String, result: Result<Checksum, LittIndexError>) -> FileOutcome {
    let relative_path = path.strip_prefix("resources/").map(str::to_string);
    FileOutcome { path, relative_path, pages: 1, result }
}

fn state_error(state: &str) -> LittIndexError {
    LittIndexError::StateError(state.to_string())
}

fn is_reading(index: &Index) -> bool {
    matches!(index, Index::Reading { .. })
}

#[test]
fn test_create() {
    let search_schema = SearchSchema::default();
    let index = Index::create(TEST_DIR_NAME, search_schema.clone());
    let (index_schema, index_path) = match index {
        Index::Writing { schema, documents_path, .. } => (schema, documents_path),
        Index::Reading { .. } => panic!("Wrong index state"),
    };
    assert_eq!(search_schema.clone(), index_schema);
    assert_eq!(String::from(TEST_DIR_NAME), index_path);
}

#[test]
fn test_open_or_create() {
    let search_schema = SearchSchema::default();
    Index::create(TEST_DIR_NAME, search_schema.clone());

    // the store is there already: creating it fails, and it is opened
    let opened_index = Index::open_or_create(TEST_DIR_NAME, search_schema.clone(), false);

    let (index_schema, index_path) = match opened_index {
        Index::Reading { schema, documents_path, .. } => (schema, documents_path),
        Index::Writing { .. } => panic!("Wrong index state"),
    };

    assert_eq!(search_schema.clone(), index_schema);
    assert_eq!(String::from(TEST_DIR_NAME), index_path);
}

#[test]
fn open_or_create_writes_where_the_store_was_created() {
    let index = Index::open_or_create(TEST_DIR_NAME, SearchSchema::default(), true);
    assert!(!is_reading(&index));
    assert_eq!(index.documents_path(), TEST_DIR_NAME);
    assert_eq!(index.writer(), Ok(()));
    assert_eq!(index.searcher(), Err(state_error("Reading")));
}

#[test]
fn a_new_index_over_no_documents_reads_and_reports_nothing() {
    let index = Index::create(TEST_DIR_NAME, SearchSchema::default());
    assert_eq!(index.collect_document_files(vec![]).len(), 0);
    let (index, checksums) = index.add_all_documents(&vec![]).unwrap();
    assert!(is_reading(&index));
    assert_eq!(index.failed_documents(), Ok(vec![]));
    assert_eq!(checksums.len(), 0);
    assert_eq!(index.searcher(), Ok(()));
}

#[test]
fn operations_in_the_wrong_state_are_state_errors() {
    let schema = SearchSchema::default();
    let writing = || Index::create(TEST_DIR_NAME, schema);
    let reading = || Index::open(TEST_DIR_NAME, schema);
    assert_eq!(writing().update().err(), Some(state_error("Reading")));
    assert_eq!(writing().reload().err(), Some(state_error("Reading")));
    assert_eq!(writing().failed_documents(), Err(state_error("Reading")));
    assert_eq!(writing().searcher(), Err(state_error("Reading")));
    assert_eq!(writing().query_parser(), Err(state_error("Reading")));
    assert_eq!(reading().writer(), Err(state_error("Writing")));
    assert_eq!(reading().add_all_documents(&vec![]).err(), Some(state_error("Writing")));
    assert_eq!(reading().add_document(&entry("a.pdf")), Err(state_error("Writing")));
    assert_eq!(
        reading().add_page(&entry("a.pdf"), 1, "p", "b").err(),
        Some(state_error("Writing"))
    );
    assert_eq!(
        reading().process_file(&entry("a.pdf"), None, None).err(),
        Some(state_error("Writing"))
    );
    assert_eq!(state_error("Writing").message(), "Index is not in assumed state: `Writing`");
}

#[test]
fn update_and_reload_lead_to_writing() {
    let schema = SearchSchema::default();
    let index = Index::open(TEST_DIR_NAME, schema).update().unwrap();
    assert!(!is_reading(&index));
    assert_eq!(index.documents_path(), TEST_DIR_NAME);
    let (index, actions) = Index::open(TEST_DIR_NAME, schema).reload().unwrap();
    assert!(!is_reading(&index));
    assert_eq!(index.documents_path(), TEST_DIR_NAME);
    assert_eq!(actions, vec![StoreAction::DeleteAllDocuments, StoreAction::RemoveChecksumMap]);
}

#[test]
fn query_parser_looks_at_title_and_body() {
    let index = Index::open(TEST_DIR_NAME, SearchSchema::default());
    assert_eq!(index.query_parser(), Ok(vec![Field::Title, Field::Body]));
    assert_eq!(SearchSchema::default().default_fields(), vec![Field::Title, Field::Body]);
}

#[test]
fn schema_has_four_fields() {
    let schema = SearchSchema::default();
    assert_eq!(schema, SearchSchema::new(Field::Title, Field::Path, Field::Page, Field::Body));
    assert_eq!(SearchSchema::name(schema.title), "title");
    assert_eq!(SearchSchema::name(schema.path), "path");
    assert_eq!(SearchSchema::name(schema.page), "page");
    assert_eq!(SearchSchema::name(schema.body), "body");
    let kept_text = FieldOptions { kind: FieldKind::Text, indexed: true, stored: true };
    assert_eq!(SearchSchema::options(Field::Title), kept_text);
    assert_eq!(SearchSchema::options(Field::Path), kept_text);
    assert_eq!(
        SearchSchema::options(Field::Page),
        FieldOptions { kind: FieldKind::Unsigned, indexed: false, stored: true }
    );
    assert_eq!(
        SearchSchema::options(Field::Body),
        FieldOptions { kind: FieldKind::Text, indexed: true, stored: false }
    );
}

#[test]
fn documents_end_in_pdf_md_or_txt() {
    for name in ["a.pdf", "b.md", "c.txt", "pdf", "notes.batxt", "amd", ".pdf"] {
        assert!(is_document_file(name), "{}", name);
    }
    for name in ["a.PDF", "b.Md", "c.txt~", "d.doc", "", "df", "pdf.zip", "a.pd"] {
        assert!(!is_document_file(name), "{}", name);
    }
    let index = Index::create(TEST_DIR_NAME, SearchSchema::default());
    let found = index.collect_document_files(vec![
        entry("b.md"),
        entry("skip.doc"),
        entry("sub/a.pdf"),
        entry("UPPER.TXT"),
        entry("c.txt"),
    ]);
    let names: Vec<&str> = found.iter().map(|e| e.file_name.as_str()).collect();
    assert_eq!(names, vec!["b.md", "a.pdf", "c.txt"]);
    assert_eq!(found[1].path, "resources/sub/a.pdf");
}

#[test]
fn a_file_is_unchanged_where_both_parts_of_its_checksum_are() {
    let stored = checksum(10, 500);
    assert!(checksum_is_equal(Some(stored), Some(checksum(10, 500))));
    assert!(!checksum_is_equal(Some(stored), Some(checksum(11, 500))));
    assert!(!checksum_is_equal(Some(stored), Some(checksum(10, 501))));
    assert!(!checksum_is_equal(
        Some(stored),
        Some(Checksum { length: 10, modified_secs: 500, modified_nanos: 18 })
    ));
    assert!(!checksum_is_equal(Some(stored), None));
    assert!(!checksum_is_equal(None, Some(stored)));
    assert!(!checksum_is_equal(None, None));
}

#[test]
fn an_unchanged_file_is_skipped_and_keeps_its_checksum() {
    let index = Index::create(TEST_DIR_NAME, SearchSchema::default());
    let file = entry("sub/a.pdf");
    let mut stored = ChecksumMap::new();
    stored.insert(file_path("sub/a.pdf"), checksum(10, 500));
    stored.insert(file_path("b.txt"), checksum(20, 600));
    match index.process_file(&file, Some(&stored), Some(checksum(10, 500))).unwrap() {
        FileAction::Skip { message: IndexMessage::SkippedExisting { document_name }, path, checksum: kept } => {
            assert_eq!(document_name, "sub/a.pdf");
            assert_eq!(path, "resources/sub/a.pdf");
            assert_eq!(kept, checksum(10, 500));
        }
        _ => panic!("not skipped"),
    }
}

#[test]
fn a_new_or_changed_file_is_added() {
    let index = Index::create(TEST_DIR_NAME, SearchSchema::default());
    let file = entry("sub/a.pdf");
    let mut stored = ChecksumMap::new();
    stored.insert(file_path("sub/a.pdf"), checksum(10, 499));
    let mut other = ChecksumMap::new();
    other.insert(file_path("b.pdf"), checksum(10, 500));
    for (existing, current) in [
        (None, Some(checksum(10, 500))),
        (Some(&stored), Some(checksum(10, 500))),
        (Some(&stored), None),
        (Some(&other), Some(checksum(10, 500))),
        (None, None),
    ] {
        match index.process_file(&file, existing, current).unwrap() {
            FileAction::Add { message: IndexMessage::Adding { document_name } } => {
                assert_eq!(document_name, "sub/a.pdf")
            }
            _ => panic!("not added"),
        }
    }
}

#[test]
fn a_file_outside_the_root_is_an_error() {
    let index = Index::create(TEST_DIR_NAME, SearchSchema::default());
    let mut file = entry("a.pdf");
    file.relative_path = None;
    let error = LittIndexError::StripPrefixError("prefix not found".to_string());
    assert_eq!(index.process_file(&file, None, None).err(), Some(error.clone()));
    assert_eq!(index.add_page(&file, 1, "p", "b").err(), Some(error.clone()));
    assert_eq!(error.message(), "prefix not found");
}

#[test]
fn only_pdf_documents_are_cut_by_the_extractor() {
    let index = Index::create(TEST_DIR_NAME, SearchSchema::default());
    assert_eq!(index.add_document(&entry("a.pdf")), Ok(DocumentKind::Pdf));
    assert_eq!(index.add_document(&entry("a.txt")), Ok(DocumentKind::Text));
    assert_eq!(index.add_document(&entry("a.md")), Ok(DocumentKind::Text));
    assert_eq!(index.add_document(&entry("a.PDF")), Ok(DocumentKind::Text));
}

#[test]
fn a_page_document_holds_the_four_fields() {
    let index = Index::create(TEST_DIR_NAME, SearchSchema::default());
    let page = index
        .add_page(&entry("sub/a.pdf"), 7, "resources/.litt/pages/u/7.pageinfo", "Hello\nWorld")
        .unwrap();
    assert_eq!(page.title, "sub/a.pdf");
    assert_eq!(page.path, "resources/.litt/pages/u/7.pageinfo");
    assert_eq!(page.page, 7);
    assert_eq!(page.body, "Hello\nWorld");
}

#[test]
fn an_ingest_stores_the_checksums_of_the_files_that_did_not_fail() {
    let index = Index::create(TEST_DIR_NAME, SearchSchema::default());
    let outcomes = vec![
        outcome("resources/a.pdf".to_string(), Ok(checksum(1, 100))),
        outcome("resources/b.pdf".to_string(), Err(LittIndexError::PdfParseError("no extractor".to_string()))),
        outcome("resources/c.txt".to_string(), Ok(checksum(3, 300))),
        outcome("resources/d.txt".to_string(), Err(LittIndexError::IoError("gone".to_string()))),
        outcome("resources/a.pdf".to_string(), Ok(checksum(5, 500))),
    ];
    let (index, checksums) = index.add_all_documents(&outcomes).unwrap();
    assert!(is_reading(&index));
    assert_eq!(
        index.failed_documents().unwrap(),
        vec![
            "path: b.pdf, error: Error parsing PDF: `no extractor`",
            "path: d.txt, error: gone"
        ]
    );
    assert_eq!(checksums.len(), 2);
    assert_eq!(checksums.get("resources/a.pdf"), Some(&checksum(5, 500)));
    assert_eq!(checksums.get("resources/c.txt"), Some(&checksum(3, 300)));
    assert_eq!(checksums.get("resources/b.pdf"), None);
    assert_eq!(checksums.get("resources/d.txt"), None);
}

#[test]
fn a_second_ingest_over_unchanged_sources_stores_the_same_checksums() {
    let schema = SearchSchema::default();
    let files = vec![entry("a.pdf"), entry("b.txt")];
    let current = vec![checksum(1, 100), checksum(2, 200)];
    let first: Vec<FileOutcome> = files
        .iter()
        .zip(&current)
        .map(|(file, sum)| outcome(file.path.clone(), Ok(*sum)))
        .collect();
    let (index, stored) = Index::create(TEST_DIR_NAME, schema).add_all_documents(&first).unwrap();
    let index = index.update().unwrap();
    let mut second = Vec::new();
    for (file, sum) in files.iter().zip(&current) {
        match index.process_file(file, Some(&stored), Some(*sum)).unwrap() {
            FileAction::Skip { checksum, .. } => second.push(FileOutcome::skipped(file, checksum)),
            FileAction::Add { .. } => panic!("added again"),
        }
    }
    let (index, again) = index.add_all_documents(&second).unwrap();
    assert_eq!(index.failed_documents(), Ok(vec![]));
    assert_eq!(again.len(), stored.len());
    for file in &files {
        assert_eq!(again.get(&file.path), stored.get(&file.path));
    }
}

#[test]
fn after_a_reload_every_file_is_added_anew() {
    let schema = SearchSchema::default();
    let (index, actions) = Index::open(TEST_DIR_NAME, schema).reload().unwrap();
    assert_eq!(actions[1], StoreAction::RemoveChecksumMap);
    // the stored checksums are gone: nothing is stored for any file
    let file = entry("a.pdf");
    assert!(matches!(
        index.process_file(&file, None, Some(checksum(1, 100))).unwrap(),
        FileAction::Add { .. }
    ));
    assert!(matches!(
        index.process_file(&file, Some(&ChecksumMap::new()), Some(checksum(1, 100))).unwrap(),
        FileAction::Add { .. }
    ));
}

#[test]
fn pages_are_extracted_from_one_until_the_extractor_fails() {
    let mut pages = PageLoop::start();
    let mut asked = Vec::new();
    for succeeded in [true, true, true, false] {
        asked.push(pages.page().unwrap());
        pages.extracted(succeeded);
    }
    assert_eq!(asked, vec![1, 2, 3, 4]);
    assert_eq!(pages.page(), None);
    assert_eq!(pages.pages, 3);
    assert!(pages.finished);
    pages.extracted(true);
    assert_eq!(pages, PageLoop { pages: 3, finished: true });
}

#[test]
fn a_document_whose_first_page_fails_has_no_pages() {
    let mut pages = PageLoop::start();
    assert_eq!(pages.page(), Some(1));
    pages.extracted(false);
    assert_eq!(pages, PageLoop { pages: 0, finished: true });
    assert_eq!(pages.page(), None);
    // it is no failure of the ingest: the file gets its checksum
    let index = Index::create(TEST_DIR_NAME, SearchSchema::default());
    let outcomes = vec![outcome("resources/empty.pdf".to_string(), Ok(checksum(0, 1)))];
    let (index, checksums) = index.add_all_documents(&outcomes).unwrap();
    assert_eq!(index.failed_documents(), Ok(vec![]));
    assert_eq!(checksums.get("resources/empty.pdf"), Some(&checksum(0, 1)));
}

#[test]
fn a_document_whose_extractor_cannot_run_fails_and_gets_no_checksum() {
    let index = Index::create(TEST_DIR_NAME, SearchSchema::default());
    let outcomes = vec![outcome("resources/a.pdf".to_string(), Err(LittIndexError::PdfParseError("pdftotext".to_string())))];
    let (index, checksums) = index.add_all_documents(&outcomes).unwrap();
    assert_eq!(index.failed_documents().unwrap().len(), 1);
    assert_eq!(
        index.failed_documents().unwrap()[0],
        "path: a.pdf, error: Error parsing PDF: `pdftotext`"
    );
    assert_eq!(checksums.len(), 0);
    assert!(!checksums.contains_key("resources/a.pdf"));
}

#[test]
fn the_page_loop_stops_at_the_largest_page_number() {
    let mut pages = PageLoop { pages: u64::MAX - 1, finished: false };
    assert_eq!(pages.page(), Some(u64::MAX));
    pages.extracted(true);
    assert_eq!(pages, PageLoop { pages: u64::MAX, finished: false });
    assert_eq!(pages.page(), None);
    pages.extracted(true);
    assert_eq!(pages, PageLoop { pages: u64::MAX, finished: false });
}

#[test]
fn page_files_are_named_by_their_number() {
    assert_eq!(page_file_name(1), "1.pageinfo");
    assert_eq!(page_file_name(120), "120.pageinfo");
    assert_eq!(page_index_file_name(7), "7.pageindex");
    assert_eq!(decimal(0), "0");
    assert_eq!(decimal(10), "10");
    assert_eq!(decimal(u64::MAX), "18446744073709551615");
    assert_eq!(
        extractor_arguments(12, "docs/a.pdf", "docs/.litt/pages/u/12.pageinfo"),
        vec!["-f", "12", "-l", "12", "docs/a.pdf", "docs/.litt/pages/u/12.pageinfo"]
    );
}

#[test]
fn create_and_add_one_page_pdf() {
    let index = Index::create(TEST_DIR_NAME, SearchSchema::default());
    let found = index.collect_document_files(vec![entry("test.pdf"), entry("notes.doc")]);
    assert_eq!(found.len(), 1);
    let file = &found[0];
    assert!(matches!(index.process_file(file, None, None), Ok(FileAction::Add { .. })));
    assert_eq!(index.add_document(file), Ok(DocumentKind::Pdf));

    // the extractor writes page 1 and fails on page 2
    let mut pages = PageLoop::start();
    let mut documents = Vec::new();
    for succeeded in [true, false] {
        let number = pages.page().unwrap();
        pages.extracted(succeeded);
        if succeeded {
            let page_path = format!("resources/.litt/pages/u/{}", page_file_name(number));
            documents.push(index.add_page(file, number, &page_path, "Hello World").unwrap());
        }
    }
    assert_eq!(pages.page(), None);
    assert_eq!(pages.pages, 1);
    assert_eq!(documents.len(), 1);
    assert_eq!(documents[0].page, 1);
    assert_eq!(documents[0].title, "test.pdf");
    assert_eq!(documents[0].path, "resources/.litt/pages/u/1.pageinfo");

    let outcomes = vec![outcome(file.path.clone(), Ok(checksum(4096, 1700000000)))];
    let (index, checksums) = index.add_all_documents(&outcomes).unwrap();
    match index {
        Index::Reading { ref failed_documents, .. } => assert!(failed_documents.is_empty()),
        Index::Writing { .. } => panic!("Wrong index state"),
    }
    assert_eq!(checksums.get("resources/test.pdf"), Some(&checksum(4096, 1700000000)));
}

#[test]
fn reloading_twice_ends_where_reloading_once_ends() {
    let schema = SearchSchema::default();
    let outcomes = vec![
        outcome("resources/a.pdf".to_string(), Ok(checksum(1, 100))),
        outcome("resources/b.pdf".to_string(), Err(LittIndexError::IoError("unreadable".to_string()))),
    ];
    let mut failed_before = Index::open(TEST_DIR_NAME, schema);
    if let Index::Reading { failed_documents, .. } = &mut failed_before {
        failed_documents.push("path: old.pdf, error: gone".to_string());
    }
    let reload = |index: Index| {
        let (index, _) = index.reload().unwrap();
        index.add_all_documents(&outcomes).unwrap()
    };
    let (once, checksums_once) = reload(failed_before);
    let failed_once = once.failed_documents().unwrap();
    let root_once = once.documents_path().clone();
    let (twice, checksums_twice) = reload(once);
    assert_eq!(twice.failed_documents().unwrap(), failed_once);
    assert_eq!(failed_once, vec!["path: b.pdf, error: unreadable"]);
    assert_eq!(twice.documents_path(), &root_once);
    assert_eq!(checksums_twice.len(), checksums_once.len());
    assert_eq!(checksums_twice.get("resources/a.pdf"), checksums_once.get("resources/a.pdf"));
    assert_eq!(checksums_twice.get("resources/a.pdf"), Some(&checksum(1, 100)));
}

#[test]
fn a_missing_extractor_is_a_pdf_error() {
    assert_eq!(EXTRACTOR, "pdftotext");
    assert_eq!(litt::pages::TEXT_PAGE_NUMBER, 1);
    assert_eq!(
        extractor_missing(),
        LittIndexError::PdfParseError(
            "Make sure pdftotext is set up correctly and installed (usually part of xpdf (Windows) or poppler (Linux/Mac))".to_string()
        )
    );
    assert_eq!(
        extractor_missing().message(),
        "Error parsing PDF: `Make sure pdftotext is set up correctly and installed (usually part of xpdf (Windows) or poppler (Linux/Mac))`"
    );
}

#[test]
fn the_layout_below_the_documents_root_has_its_names() {
    assert_eq!(litt::LITT_DIRECTORY_NAME, ".litt");
    assert_eq!(litt::INDEX_DIRECTORY_NAME, "index");
    assert_eq!(litt::PAGES_DIRECTORY_NAME, "pages");
    assert_eq!(litt::CHECK_SUM_MAP_FILENAME, "checksum.json");
    assert_eq!(litt::PREVIEW_LENGTH, 70);
    assert_eq!(litt::TARGET_MEMORY_BYTES, 100_000_000);
}

#[test]
fn an_ingest_counts_the_pages_of_the_files_that_did_not_fail() {
    let index = Index::create(TEST_DIR_NAME, SearchSchema::default());
    let page = |file: &SourceEntry, number: u64| index.add_page(file, number, "p", "body").unwrap();
    let pdf = entry("a.pdf");
    let text = entry("b.txt");
    let broken = entry("c.pdf");
    let known = entry("d.md");
    let (taken_pdf, pdf_pages) =
        FileOutcome::of_ingest(&pdf, Ok(checksum(1, 1)), vec![page(&pdf, 1), page(&pdf, 2), page(&pdf, 3)]);
    let (taken_text, text_pages) = FileOutcome::of_ingest(&text, Ok(checksum(2, 2)), vec![page(&text, 1)]);
    // two pages were extracted before the file failed: the store takes none of them
    let (failed, no_pages) = FileOutcome::of_ingest(
        &broken,
        Err(LittIndexError::IoError("unreadable".to_string())),
        vec![page(&broken, 1), page(&broken, 2)],
    );
    let skipped = FileOutcome::skipped(&known, checksum(4, 4));
    assert_eq!((taken_pdf.pages, pdf_pages.len()), (3, 3));
    assert_eq!((taken_text.pages, text_pages.len()), (1, 1));
    assert_eq!((failed.pages, no_pages.len()), (0, 0));
    assert_eq!(skipped.pages, 0);
    assert_eq!(taken_pdf.path, "resources/a.pdf");
    assert_eq!(taken_pdf.relative_path, Some("a.pdf".to_string()));
    assert_eq!(pdf_pages[2].page, 3);

    let outcomes = vec![taken_pdf, failed, taken_text, skipped];
    let (index, checksums) = Index::create(TEST_DIR_NAME, SearchSchema::default())
        .add_all_documents(&outcomes)
        .unwrap();
    assert_eq!(index.added_pages(), Ok(4));
    assert_eq!(index.failed_documents().unwrap(), vec!["path: c.pdf, error: unreadable"]);
    assert_eq!(checksums.len(), 3);
    assert_eq!(Index::open(TEST_DIR_NAME, SearchSchema::default()).added_pages(), Ok(0));
    assert_eq!(
        Index::create(TEST_DIR_NAME, SearchSchema::default()).added_pages(),
        Err(state_error("Reading"))
    );
}

#[test]
fn the_page_count_stops_at_the_largest_number() {
    let mut many = FileOutcome::skipped(&entry("a.pdf"), checksum(1, 1));
    many.pages = u64::MAX - 1;
    let mut more = FileOutcome::skipped(&entry("b.pdf"), checksum(2, 2));
    more.pages = 5;
    let (index, _) = Index::create(TEST_DIR_NAME, SearchSchema::default())
        .add_all_documents(&vec![many, more])
        .unwrap();
    assert_eq!(index.added_pages(), Ok(u64::MAX));
}

#[test]
fn a_file_outside_the_root_is_reported_by_its_whole_path() {
    let mut file = entry("a.pdf");
    file.relative_path = None;
    let (failed, _) = FileOutcome::of_ingest(
        &file,
        Err(LittIndexError::StripPrefixError("prefix not found".to_string())),
        vec![],
    );
    let (index, checksums) = Index::create(TEST_DIR_NAME, SearchSchema::default())
        .add_all_documents(&vec![failed])
        .unwrap();
    assert_eq!(
        index.failed_documents().unwrap(),
        vec!["path: resources/a.pdf, error: prefix not found"]
    );
    assert_eq!(checksums.len(), 0);
}
