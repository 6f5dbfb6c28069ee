use litt::cli::{number_results, opens_as_pdf, viewer_arguments, Cli, Command};
use litt::interactive::{
    advance, history_down, history_up, insert_grapheme, insert_into_clusters, parse_line,
    parse_marked_line, parse_marked_number, parse_result_number, remember, remove_from_clusters,
    remove_grapheme, search_term_for, InteractiveSearchInput, SearchOptionUpdate, SearchOptions,
    Step,
};
use litt::numbers::{parse_unsigned, trim, trim_marked};
use litt::search::SearchTerm;

fn chars(text: &str) -> Vec<char> {
    text.chars().collect()
}

fn options() -> SearchOptions {
    SearchOptions { limit: 10, offset: 0, fuzzy: false, distance: 2 }
}

fn cli() -> Cli {
    Cli {
        litt_index: Some("papers".to_string()),
        term: String::new(),
        init: String::new(),
        update: false,
        reload: false,
        remove: false,
        list: false,
        offset: 0,
        limit: 10,
        fuzzy: false,
        distance: 2,
    }
}

#[test]
fn numbers_are_digits_with_or_without_a_plus_sign() {
    assert_eq!(parse_unsigned(&chars("0"), 255), Some(0));
    assert_eq!(parse_unsigned(&chars("007"), 255), Some(7));
    assert_eq!(parse_unsigned(&chars("+42"), 255), Some(42));
    assert_eq!(parse_unsigned(&chars("255"), 255), Some(255));
    assert_eq!(parse_unsigned(&chars("256"), 255), None);
    assert_eq!(parse_unsigned(&chars("18446744073709551615"), u64::MAX), Some(u64::MAX));
    assert_eq!(parse_unsigned(&chars("18446744073709551616"), u64::MAX), None);
    assert_eq!(parse_unsigned(&chars("99999999999999999999999"), u64::MAX), None);
    for text in ["", "+", "-1", "1 ", " 1", "1_000", "12a", "a12", "++1", "1+", "٣"] {
        assert_eq!(parse_unsigned(&chars(text), u64::MAX), None, "{:?}", text);
    }
}

#[test]
fn numbers_are_read_as_the_standard_library_reads_them() {
    for text in ["0", "+0", "12", "4294967295", "4294967296", "", "+", "x", "1x", "00001"] {
        assert_eq!(
            parse_unsigned(&chars(text), u32::MAX as u64).map(|n| n as u32),
            text.parse::<u32>().ok(),
            "{:?}",
            text
        );
    }
}

#[test]
fn trimming_takes_white_space_from_both_ends_only() {
    assert_eq!(trim(&chars("  a b \t\n")), chars("a b"));
    assert_eq!(trim(&chars("a")), chars("a"));
    assert_eq!(trim(&chars(" \u{a0}\u{2003} ")), chars(""));
    assert_eq!(trim(&chars("")), chars(""));
    assert_eq!(trim(&chars("\u{3000}x\u{3000}")), chars("x"));
    assert_eq!(trim(&chars("_x_")), chars("_x_"));
}

#[test]
fn a_result_number_may_stand_between_white_space() {
    assert_eq!(parse_result_number("12"), Some(12));
    assert_eq!(parse_result_number(" 12\n"), Some(12));
    assert_eq!(parse_result_number("4294967295"), Some(u32::MAX));
    assert_eq!(parse_result_number("4294967296"), None);
    assert_eq!(parse_result_number("1 2"), None);
    assert_eq!(parse_result_number("river"), None);
    assert_eq!(parse_result_number(""), None);
}

#[test]
fn entered_lines_are_commands_or_queries() {
    assert!(matches!(parse_line("q"), Some(InteractiveSearchInput::Quit)));
    assert!(matches!(parse_line("7"), Some(InteractiveSearchInput::OpenPdf(7))));
    assert!(matches!(parse_line(" 7 "), Some(InteractiveSearchInput::OpenPdf(7))));
    assert!(matches!(
        parse_line("#set limit 25"),
        Some(InteractiveSearchInput::SearchOptionsUpdate(SearchOptionUpdate::Limit(25)))
    ));
    assert!(matches!(
        parse_line("#set distance 3"),
        Some(InteractiveSearchInput::SearchOptionsUpdate(SearchOptionUpdate::Distance(3)))
    ));
    assert!(matches!(
        parse_line("# limit 1 more"),
        Some(InteractiveSearchInput::SearchOptionsUpdate(SearchOptionUpdate::Limit(1)))
    ));
    for line in ["#set fuzzy 1", "#set", "#", "#set limit", "#set limit x", "#set distance 256", "#set  limit 3"] {
        assert!(parse_line(line).is_none(), "{:?}", line);
    }
    for line in ["river", "q ", " q", "quit", "~Soledud", "", "7 pages", "set limit 3"] {
        match parse_line(line) {
            Some(InteractiveSearchInput::Search(term)) => assert_eq!(term, line),
            _ => panic!("no query: {:?}", line),
        }
    }
}

#[test]
fn a_query_starts_at_the_first_hit() {
    let mut opts = SearchOptions { offset: 30, ..options() };
    let mut term = "old".to_string();
    let step = advance(&mut opts, &mut term, InteractiveSearchInput::Search("river".to_string()));
    assert!(matches!(step, Step::Search(SearchTerm::Exact(ref t)) if t == "river"));
    assert_eq!(term, "river");
    assert_eq!(opts, options());
}

#[test]
fn a_tilde_marks_a_fuzzy_query() {
    let mut opts = SearchOptions { distance: 3, ..options() };
    let mut term = String::new();
    let step = advance(&mut opts, &mut term, InteractiveSearchInput::Search("~Soledud".to_string()));
    assert!(matches!(step, Step::Search(SearchTerm::Fuzzy(ref t, 3)) if t == "Soledud"));
    assert_eq!(term, "~Soledud");
    assert!(opts.fuzzy);
    let step = advance(&mut opts, &mut term, InteractiveSearchInput::Search("Soledad".to_string()));
    assert!(matches!(step, Step::Search(SearchTerm::Exact(ref t)) if t == "Soledad"));
    assert!(!opts.fuzzy);
}

#[test]
fn browsing_moves_by_the_limit() {
    let mut opts = options();
    let mut term = "river".to_string();
    assert!(matches!(
        advance(&mut opts, &mut term, InteractiveSearchInput::BrowseForward),
        Step::Search(SearchTerm::Exact(_))
    ));
    assert_eq!(opts.offset, 10);
    advance(&mut opts, &mut term, InteractiveSearchInput::BrowseForward);
    assert_eq!(opts.offset, 20);
    assert!(matches!(
        advance(&mut opts, &mut term, InteractiveSearchInput::BrowseBackword),
        Step::Search(SearchTerm::Exact(_))
    ));
    assert_eq!(opts.offset, 10);
    advance(
        &mut opts,
        &mut term,
        InteractiveSearchInput::SearchOptionsUpdate(SearchOptionUpdate::Limit(25)),
    );
    advance(&mut opts, &mut term, InteractiveSearchInput::BrowseBackword);
    assert_eq!(opts.offset, 0);
    let step = advance(&mut opts, &mut term, InteractiveSearchInput::BrowseBackword);
    assert!(matches!(step, Step::Notice("Offset is already zero...")));
    assert_eq!(opts.offset, 0);
    opts.offset = usize::MAX - 3;
    advance(&mut opts, &mut term, InteractiveSearchInput::BrowseForward);
    assert_eq!(opts.offset, usize::MAX);
}

#[test]
fn browsing_without_a_query_only_gives_notice() {
    let mut opts = options();
    let mut term = String::new();
    for input in [InteractiveSearchInput::BrowseForward, InteractiveSearchInput::BrowseBackword] {
        let step = advance(&mut opts, &mut term, input);
        assert!(matches!(
            step,
            Step::Notice("No search term specified! Enter search term first...")
        ));
    }
    assert_eq!(opts, options());
    assert_eq!(term, "");
}

#[test]
fn changed_options_search_again_where_there_is_a_query() {
    let mut opts = options();
    let mut term = String::new();
    let step = advance(
        &mut opts,
        &mut term,
        InteractiveSearchInput::SearchOptionsUpdate(SearchOptionUpdate::Distance(1)),
    );
    assert!(matches!(step, Step::Idle));
    assert_eq!(opts.distance, 1);
    let mut term = "~rivr".to_string();
    let step = advance(
        &mut opts,
        &mut term,
        InteractiveSearchInput::SearchOptionsUpdate(SearchOptionUpdate::Limit(3)),
    );
    assert!(matches!(step, Step::Search(SearchTerm::Fuzzy(ref t, 1)) if t == "rivr"));
    assert_eq!(opts, SearchOptions { limit: 3, offset: 0, fuzzy: true, distance: 1 });
}

#[test]
fn quitting_and_opening_change_nothing() {
    let mut opts = SearchOptions { offset: 20, ..options() };
    let mut term = "river".to_string();
    assert!(matches!(advance(&mut opts, &mut term, InteractiveSearchInput::Quit), Step::Quit));
    assert!(matches!(advance(&mut opts, &mut term, InteractiveSearchInput::OpenPdf(4)), Step::Open(4)));
    assert_eq!(opts, SearchOptions { offset: 20, ..options() });
    assert_eq!(term, "river");
}

#[test]
fn the_query_of_a_search_follows_the_options() {
    let fuzzy = SearchOptions { fuzzy: true, distance: 4, ..options() };
    assert!(matches!(search_term_for("a".to_string(), &fuzzy), SearchTerm::Fuzzy(ref t, 4) if t == "a"));
    assert!(matches!(search_term_for("a".to_string(), &options()), SearchTerm::Exact(ref t) if t == "a"));
}

#[test]
fn characters_are_inserted_between_clusters() {
    let mut input = "Wörld".to_string();
    insert_grapheme(&mut input, 0, 'a');
    assert_eq!(input, "aWörld");
    insert_grapheme(&mut input, 3, 'b');
    assert_eq!(input, "aWöbrld");
    insert_grapheme(&mut input, 7, 'c');
    assert_eq!(input, "aWöbrldc");
    insert_grapheme(&mut input, 100, 'd');
    assert_eq!(input, "aWöbrldcd");
    let mut input = "e\u{301}x".to_string();
    insert_grapheme(&mut input, 1, '-');
    assert_eq!(input, "e\u{301}-x");
    let mut input = String::new();
    insert_grapheme(&mut input, 0, 'z');
    assert_eq!(input, "z");
    assert_eq!(insert_into_clusters(&vec![vec!['a', 'b'], vec!['c']], 1, '|'), chars("ab|c"));
}

#[test]
fn history_is_walked_up_and_down() {
    let history = vec!["one".to_string(), "two".to_string()];
    assert_eq!(history_up(&history, 2), Some((1, "two".to_string())));
    assert_eq!(history_up(&history, 1), Some((0, "one".to_string())));
    assert_eq!(history_up(&history, 0), None);
    assert_eq!(history_up(&history, 3), None);
    assert_eq!(history_down(&history, 0), Some((1, "two".to_string())));
    assert_eq!(history_down(&history, 1), Some((2, String::new())));
    assert_eq!(history_down(&history, 2), None);
    assert_eq!(history_down(&vec![], 0), None);
}

#[test]
fn history_leaves_out_a_line_entered_twice_in_a_row() {
    let mut history = Vec::new();
    remember(&mut history, "river");
    remember(&mut history, "river");
    remember(&mut history, "bank");
    remember(&mut history, "river");
    remember(&mut history, "");
    assert_eq!(history, vec!["river", "bank", "river", ""]);
}

#[test]
fn arguments_are_taken_in_their_order_of_rank() {
    assert_eq!(cli().command(), Command::Interactive(options()));
    assert_eq!(Cli { list: true, litt_index: None, ..cli() }.command(), Command::List);
    assert_eq!(Cli { list: true, init: "docs".to_string(), ..cli() }.command(), Command::List);
    assert_eq!(Cli { litt_index: None, init: "docs".to_string(), ..cli() }.command(), Command::Help);
    assert_eq!(
        Cli { init: "docs".to_string(), remove: true, update: true, ..cli() }.command(),
        Command::Create
    );
    assert_eq!(Cli { remove: true, update: true, reload: true, ..cli() }.command(), Command::Remove);
    assert_eq!(Cli { update: true, reload: true, term: "a".to_string(), ..cli() }.command(), Command::Update);
    assert_eq!(Cli { reload: true, term: "a".to_string(), ..cli() }.command(), Command::Reload);
    assert_eq!(
        Cli { term: "a".to_string(), offset: 5, limit: 3, fuzzy: true, distance: 1, ..cli() }.command(),
        Command::Search(SearchOptions { limit: 3, offset: 5, fuzzy: true, distance: 1 })
    );
    assert_eq!(
        Cli { offset: 5, limit: 3, fuzzy: true, distance: 1, ..cli() }.command(),
        Command::Interactive(options())
    );
}

#[test]
fn documents_are_opened_at_their_page() {
    assert!(opens_as_pdf("/docs/a.pdf"));
    assert!(!opens_as_pdf("/docs/a.txt"));
    assert!(!opens_as_pdf("/docs/a.PDF"));
    assert_eq!(
        viewer_arguments("/docs/a.pdf", 12, "Soledad"),
        vec!["/docs/a.pdf", "-P", "12", "-f", "Soledad"]
    );
    assert_eq!(viewer_arguments("a.pdf", 0, ""), vec!["a.pdf", "-P", "0", "-f", ""]);
}

#[test]
fn trimming_follows_the_marks() {
    let text = chars("..a.b..");
    let marks: Vec<bool> = text.iter().map(|c| *c == '.').collect();
    assert_eq!(trim_marked(&text, &marks), chars("a.b"));
    assert_eq!(trim_marked(&text, &vec![]), text);
    assert_eq!(trim_marked(&text, &vec![true; 7]), chars(""));
    assert_eq!(trim_marked(&text, &vec![true; 9]), chars(""));
    assert_eq!(trim_marked(&text, &vec![true, true, true]), chars(".b.."));
    assert_eq!(trim_marked(&chars(""), &vec![true]), chars(""));
}

#[test]
fn lines_are_read_by_the_marks_of_their_white_space() {
    let line = chars("_7_");
    let marks = vec![true, false, true];
    assert_eq!(parse_marked_number(&line, &marks), Some(7));
    assert_eq!(parse_marked_number(&line, &vec![]), None);
    assert!(matches!(parse_marked_line(&line, &marks), Some(InteractiveSearchInput::OpenPdf(7))));
    match parse_marked_line(&line, &vec![]) {
        Some(InteractiveSearchInput::Search(term)) => assert_eq!(term, "_7_"),
        _ => panic!("no query"),
    }
    assert!(matches!(parse_marked_line(&chars("q"), &vec![true]), Some(InteractiveSearchInput::Quit)));
    assert!(matches!(
        parse_marked_line(&chars("# distance 9"), &vec![]),
        Some(InteractiveSearchInput::SearchOptionsUpdate(SearchOptionUpdate::Distance(9)))
    ));
}

#[test]
fn clusters_are_taken_out_of_a_line() {
    let mut input = "aW\u{f6}brld".to_string();
    remove_grapheme(&mut input, 3);
    assert_eq!(input, "aW\u{f6}rld");
    remove_grapheme(&mut input, 0);
    assert_eq!(input, "W\u{f6}rld");
    remove_grapheme(&mut input, 4);
    assert_eq!(input, "W\u{f6}rl");
    remove_grapheme(&mut input, 4);
    assert_eq!(input, "W\u{f6}rl");
    let mut input = "e\u{301}x".to_string();
    remove_grapheme(&mut input, 0);
    assert_eq!(input, "x");
    let mut input = String::new();
    remove_grapheme(&mut input, 0);
    assert_eq!(input, "");
    assert_eq!(remove_from_clusters(&vec![vec!['a', 'b'], vec!['c'], vec!['d']], 1), chars("abd"));
}

#[test]
fn shown_pages_are_numbered_from_one() {
    let found = vec![
        ("/docs/b.pdf".to_string(), 3, "river".to_string()),
        ("/docs/b.pdf".to_string(), 1, "River".to_string()),
        ("/docs/a.txt".to_string(), 1, String::new()),
    ];
    assert_eq!(
        number_results(&found),
        vec![(1, found[0].clone()), (2, found[1].clone()), (3, found[2].clone())]
    );
    assert_eq!(number_results(&vec![]), vec![]);
}
