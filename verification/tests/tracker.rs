use litt::checksum::{Checksum, ChecksumMap};
use litt::errors::{LittIndexError, LittIndexTrackerError, LittSearchError};
use litt::messages::{
    display_lines, lead_line, IndexInfo, IndexMessage, Message, TrackerMessage,
};
use litt::text::{chars_of, ends_with, replace_newlines, str_contains, string_of};
use litt::tracker::IndexTracker;

#[test]
fn a_new_tracker_knows_no_index() {
    let tracker = IndexTracker::new();
    assert!(!tracker.name_exists("papers"));
    assert_eq!(tracker.path_exists(&"/docs".to_string()), None);
    assert_eq!(tracker.get_name(&"/docs".to_string()), None);
    assert_eq!(tracker.all(), Ok(vec![]));
    assert_eq!(
        tracker.get_path("papers"),
        Err(LittIndexTrackerError::NotFound("papers".to_string()))
    );
}

#[test]
fn added_indices_are_found_by_name_and_by_path() {
    let mut tracker = IndexTracker::new();
    tracker.add("papers".to_string(), "/home/me/papers".to_string());
    tracker.add("books".to_string(), "/home/me/books".to_string());
    assert!(tracker.name_exists("papers"));
    assert!(tracker.name_exists("books"));
    assert!(!tracker.name_exists("Papers"));
    assert_eq!(tracker.get_path("books"), Ok("/home/me/books".to_string()));
    assert_eq!(tracker.path_exists(&"/home/me/papers".to_string()), Some(true));
    assert_eq!(tracker.path_exists(&"/home/me".to_string()), None);
    assert_eq!(tracker.get_name(&"/home/me/books".to_string()), Some("books".to_string()));
    assert_eq!(tracker.get_name(&"papers".to_string()), None);
    assert_eq!(
        tracker.all(),
        Ok(vec![
            ("papers".to_string(), "/home/me/papers".to_string()),
            ("books".to_string(), "/home/me/books".to_string())
        ])
    );
}

#[test]
fn adding_a_name_again_replaces_its_path() {
    let mut tracker = IndexTracker::new();
    tracker.add("papers".to_string(), "/old".to_string());
    tracker.add("papers".to_string(), "/new".to_string());
    assert_eq!(tracker.get_path("papers"), Ok("/new".to_string()));
    assert_eq!(tracker.path_exists(&"/old".to_string()), None);
    assert_eq!(tracker.all().unwrap().len(), 1);
}

#[test]
fn removed_indices_are_gone() {
    let mut tracker = IndexTracker::new();
    tracker.add("papers".to_string(), "/papers".to_string());
    tracker.add("books".to_string(), "/books".to_string());
    tracker.remove("papers");
    tracker.remove("never there");
    assert!(!tracker.name_exists("papers"));
    assert_eq!(tracker.get_name(&"/papers".to_string()), None);
    assert_eq!(tracker.all(), Ok(vec![("books".to_string(), "/books".to_string())]));
    assert_eq!(
        tracker.get_path("papers").unwrap_err().message(),
        "The given index `papers` does not exist"
    );
}

#[test]
fn checksum_maps_remember_the_last_checksum_of_a_path() {
    let first = Checksum { length: 1, modified_secs: 2, modified_nanos: 3 };
    let second = Checksum { length: 4, modified_secs: 5, modified_nanos: 6 };
    let mut map = ChecksumMap::new();
    assert_eq!(map.len(), 0);
    map.insert("a".to_string(), first);
    map.insert("b".to_string(), first);
    map.insert("a".to_string(), second);
    assert_eq!(map.len(), 2);
    assert_eq!(map.get("a"), Some(&second));
    assert_eq!(map.get("b"), Some(&first));
    assert_eq!(map.get("c"), None);
    assert!(map.contains_key("b"));
    assert_eq!(map.entry(0).key, "a");
    assert_eq!(map.entry(0).value, second);
    map.remove("a");
    assert_eq!(map.len(), 1);
    assert_eq!(map.get("a"), None);
    assert_eq!(map.entry(0).key, "b");
}

#[test]
fn errors_have_their_texts() {
    let d = || "x".to_string();
    assert_eq!(LittIndexError::CreationError(d()).message(), "Index Creation Error: `x`");
    assert_eq!(LittIndexError::UpdateError(d()).message(), "Error updating the index: `x`");
    assert_eq!(LittIndexError::OpenError(d()).message(), "Error opening existing index: `x`");
    assert_eq!(LittIndexError::ReloadError(d()).message(), "Error reloading index writer: `x`");
    assert_eq!(LittIndexError::WriteError(d()).message(), "Index Write Error: `x`");
    assert_eq!(LittIndexError::StateError(d()).message(), "Index is not in assumed state: `x`");
    assert_eq!(LittIndexError::ReadError(d()).message(), "Index Read Error: `x`");
    assert_eq!(LittIndexError::PdfParseError(d()).message(), "Error parsing PDF: `x`");
    assert_eq!(LittIndexError::TxtParseError(d()).message(), "Error parsing txt-file: `x`");
    assert_eq!(LittIndexError::IoError(d()).message(), "x");
    assert_eq!(LittIndexError::TantivyError(d()).message(), "x");
    assert_eq!(LittIndexError::StripPrefixError(d()).message(), "x");
    assert_eq!(LittIndexError::SerdeJsonError(d()).message(), "x");
    assert_eq!(LittIndexError::LockPoisoned(d()).message(), "One of the locks is poisoned: x");
    assert_eq!(LittIndexError::wrong_state("Reading"), LittIndexError::StateError("Reading".to_string()));
    assert_eq!(LittSearchError::InitError(d()).message(), "Error initializing new search: `x`");
    assert_eq!(LittSearchError::SearchError(d()).message(), "Error during search: `x`");
    assert_eq!(LittSearchError::IoError(d()).message(), "x");
    assert_eq!(LittSearchError::TantivyError(d()).message(), "x");
    assert_eq!(LittSearchError::QueryParserError(d()).message(), "x");
    assert_eq!(
        LittSearchError::LittIndexError(LittIndexError::ReadError(d())).message(),
        "Index Read Error: `x`"
    );
    assert_eq!(LittSearchError::search_error("y"), LittSearchError::SearchError("y".to_string()));
    assert_eq!(LittIndexTrackerError::NotFound(d()).message(), "The given index `x` does not exist");
    assert_eq!(LittIndexTrackerError::IoError(d()).message(), "x");
    assert_eq!(LittIndexTrackerError::SerdeJsonError(d()).message(), "x");
}

#[test]
fn messages_are_shown_in_lines() {
    assert_eq!(display_lines(&Message::Info("ready")), vec!["Info: ready"]);
    assert_eq!(display_lines(&Message::Warning("slow")), vec!["Warning: slow"]);
    assert_eq!(display_lines(&Message::Error("broken")), vec!["Error: broken"]);
    assert_eq!(
        display_lines(&Message::Index(IndexMessage::Adding { document_name: "a.pdf" })),
        vec!["Adding document: a.pdf"]
    );
    assert_eq!(
        display_lines(&Message::Index(IndexMessage::SkippedExisting { document_name: "a.pdf" })),
        vec!["Skipped (already exists): a.pdf"]
    );
    let papers = "/home/me/my \"papers\"".to_string();
    let books = "/books".to_string();
    let indices = vec![
        IndexInfo { name: "papers", path: &papers },
        IndexInfo { name: "books", path: &books },
    ];
    assert_eq!(
        display_lines(&Message::Tracker(TrackerMessage::AvailableIndices(indices))),
        vec![
            "Currently available indices: ",
            " - (\"papers\", \"/home/me/my \\\"papers\\\"\")",
            " - (\"books\", \"/books\")"
        ]
    );
    assert_eq!(
        display_lines(&Message::Tracker(TrackerMessage::AvailableIndices(vec![]))),
        vec!["Currently available indices: "]
    );
}

#[test]
fn a_line_is_a_text_behind_its_lead() {
    assert_eq!(lead_line(" - ", "(\"a\", \"b\")"), " - (\"a\", \"b\")");
    assert_eq!(lead_line("", ""), "");
}

#[test]
fn texts_and_their_characters_convert_both_ways() {
    assert_eq!(chars_of("Bär"), vec!['B', 'ä', 'r']);
    assert_eq!(chars_of(""), Vec::<char>::new());
    assert_eq!(string_of(&vec!['W', 'ö', 'r', 'l', 'd']), "Wörld");
    assert_eq!(string_of(&vec![]), "");
    assert_eq!(string_of(&replace_newlines(&chars_of("a\nb\r\n"))), "a b\r ");
    assert!(ends_with("a.pdf", "pdf"));
    assert!(ends_with("pdf", "pdf"));
    assert!(ends_with("x", ""));
    assert!(!ends_with("df", "pdf"));
    assert!(!ends_with("a.pdf ", "pdf"));
}

#[test]
fn a_text_contains_its_runs_of_characters() {
    assert!(str_contains("Soledad", "Sole"));
    assert!(str_contains("Soledad", "dad"));
    assert!(str_contains("Soledad", "led"));
    assert!(str_contains("Soledad", "Soledad"));
    assert!(str_contains("Soledad", ""));
    assert!(str_contains("", ""));
    assert!(str_contains("B\u{e4}r", "\u{e4}r"));
    assert!(!str_contains("Soledad", "sole"));
    assert!(!str_contains("Soledad", "Soledads"));
    assert!(!str_contains("Soledad", "dda"));
    assert!(!str_contains("", "a"));
    assert!(!str_contains("aab", "abb"));
    for (text, run) in [("aaab", "aab"), ("abcabd", "abd"), ("xyz", "zx"), ("mississippi", "issip")] {
        assert_eq!(str_contains(text, run), text.contains(run), "{:?} {:?}", text, run);
    }
}
