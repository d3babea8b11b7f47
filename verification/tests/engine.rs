use bookmarks::args::parse_args;
use bookmarks::compose::{compose_record, render_tags_line, NewRecord};
use bookmarks::query::{
    build_result_set, candidate_ids, contains_string, find, indexed_entries, lookup_text,
    no_bookmarks_message, no_files_message, related_tags, remove_query_terms, Candidate,
};
use bookmarks::record::extract_url;
use bookmarks::selection::{apply_selection, first_selection, parse_selection};
use bookmarks::slug::title_to_filename;
use bookmarks::title::matches_all_strings;

fn strings(v: &[&str]) -> Vec<String> {
    v.iter().map(|s| s.to_string()).collect()
}

fn cand(id: &str, text: &str) -> Candidate {
    Candidate {
        id: id.to_string(),
        text: text.to_string(),
    }
}

#[test]
fn slug_of_ordinary_title() {
    assert_eq!(title_to_filename("My Cool Site!"), "my-cool-site");
}

#[test]
fn slug_is_deterministic() {
    let a = title_to_filename("Some, Title -- with Noise");
    let b = title_to_filename("Some, Title -- with Noise");
    assert_eq!(a, b);
}

#[test]
fn slug_collapses_runs_and_strips_tail() {
    assert_eq!(title_to_filename("a...b..."), "a-b");
    assert_eq!(title_to_filename(""), "");
    assert_eq!(title_to_filename("!!!"), "");
    assert_eq!(title_to_filename("!a"), "-a");
    assert_eq!(title_to_filename("Rust 2024"), "rust-2024");
}

#[test]
fn slug_lowercases_beyond_ascii() {
    assert_eq!(title_to_filename("Éclair Café"), "éclair-café");
}

#[test]
fn empty_title_query_matches_everything() {
    assert!(matches_all_strings("anything at all", &strings(&[])));
    assert!(matches_all_strings("", &strings(&[])));
}

#[test]
fn title_query_is_case_sensitive_conjunction() {
    let text = "My Cool Site";
    assert!(matches_all_strings(text, &strings(&["Cool"])));
    assert!(matches_all_strings(text, &strings(&["My", "Site"])));
    assert!(!matches_all_strings(text, &strings(&["cool"])));
    assert!(!matches_all_strings(text, &strings(&["My", "absent"])));
}

#[test]
fn selection_accepts_noise_between_numbers() {
    assert_eq!(parse_selection("1 2, 3").unwrap(), vec![1, 2, 3]);
    assert_eq!(parse_selection("1,2 and 3").unwrap(), vec![1, 2, 3]);
}

#[test]
fn selection_without_digits_is_empty() {
    assert_eq!(parse_selection("").unwrap(), Vec::<usize>::new());
    assert_eq!(parse_selection("abc").unwrap(), Vec::<usize>::new());
}

#[test]
fn selection_overflow_is_fatal() {
    assert!(parse_selection("99999999999999999999").is_err());
}

#[test]
fn selection_keeps_duplicates_and_order() {
    assert_eq!(parse_selection("3 1 3").unwrap(), vec![3, 1, 3]);
}

#[test]
fn apply_selection_drops_out_of_range() {
    let results = strings(&["r0", "r1", "r2"]);
    let picked = apply_selection(&vec![0, 2, 5], &results);
    assert_eq!(picked, strings(&["r0", "r2"]));
}

#[test]
fn apply_selection_keeps_input_order_and_duplicates() {
    let results = strings(&["r0", "r1", "r2"]);
    let picked = apply_selection(&vec![2, 0, 2], &results);
    assert_eq!(picked, strings(&["r2", "r0", "r2"]));
}

#[test]
fn first_selection_policy() {
    let results = strings(&["r0", "r1", "r2"]);
    assert_eq!(first_selection(&vec![1, 9], &results), Some("r1".to_string()));
    assert_eq!(first_selection(&vec![7, 0], &results), None);
    assert_eq!(first_selection(&vec![], &results), None);
}

#[test]
fn build_result_set_filters_on_record_text() {
    let candidates = vec![
        cand("a.txt", "title: Alpha Site\nurl: http://a\n\n@web"),
        cand("b.txt", "title: Beta Page\nurl: http://b\n\n@web"),
        cand("c.txt", "title: Alpha Again\nurl: http://c\n\n@web"),
    ];
    let tag_matches = strings(&["a.txt", "b.txt", "c.txt"]);
    let r = build_result_set(&tag_matches, &candidates, &strings(&["Alpha"]));
    assert_eq!(r, strings(&["a.txt", "c.txt"]));
    let all = build_result_set(&tag_matches, &candidates, &strings(&[]));
    assert_eq!(all, tag_matches);
}

#[test]
fn build_result_set_preserves_order_and_duplicates() {
    let candidates = vec![cand("a", "xyz"), cand("b", "q")];
    let tag_matches = strings(&["b", "a", "a"]);
    let r = build_result_set(&tag_matches, &candidates, &strings(&[]));
    assert_eq!(r, strings(&["b", "a", "a"]));
}

#[test]
fn find_narrows_matcher_outcome_by_title() {
    let cands = vec![
        cand("a.txt", "title: Alpha Site\nurl: http://a\n\n@web"),
        cand("b.txt", "title: Beta Page\nurl: http://b\n\n@web"),
        cand("c.txt", "title: Alpha Again\nurl: http://c\n\n@web"),
    ];
    let matched = Some(strings(&["a.txt", "c.txt"]));
    assert_eq!(find(&cands, &matched, &strings(&[])), strings(&["a.txt", "c.txt"]));
    assert_eq!(find(&cands, &matched, &strings(&["Alpha"])), strings(&["a.txt", "c.txt"]));
    assert_eq!(find(&cands, &matched, &strings(&["Site"])), strings(&["a.txt"]));
    assert_eq!(find(&cands, &matched, &strings(&["Beta"])), strings(&[]));
}

#[test]
fn find_degrades_matcher_failure_to_empty() {
    let cands = vec![cand("a.txt", "title: Alpha Site")];
    assert!(find(&cands, &None, &strings(&[])).is_empty());
    assert!(find(&vec![], &Some(vec![]), &strings(&[])).is_empty());
}

#[test]
fn related_tags_degrade_matcher_failure_to_empty() {
    assert!(related_tags(&None, &strings(&["rust"])).is_empty());
    assert!(related_tags(&Some(vec![]), &strings(&["rust"])).is_empty());
}

#[test]
fn related_tags_never_echo_the_query() {
    let r = related_tags(&Some(strings(&["rust", "verus", "proof"])), &strings(&["verus"]));
    assert_eq!(r, strings(&["rust", "proof"]));
}

#[test]
fn related_never_echoes_query_terms() {
    let tags = strings(&["rust", "verus", "proof"]);
    let r = remove_query_terms(&tags, &strings(&["verus"]));
    assert_eq!(r, strings(&["rust", "proof"]));
    assert!(!r.contains(&"verus".to_string()));
}

#[test]
fn contains_string_compares_characters() {
    let v = strings(&["a", "b"]);
    assert!(contains_string(&v, &"b".to_string()));
    assert!(!contains_string(&v, &"c".to_string()));
}

#[test]
fn lookup_text_takes_first_match() {
    let candidates = vec![cand("a", "first"), cand("a", "second"), cand("b", "other")];
    assert_eq!(lookup_text(&candidates, &"a".to_string()), Some("first".to_string()));
    assert_eq!(lookup_text(&candidates, &"z".to_string()), None);
}

#[test]
fn candidate_ids_keep_order() {
    let candidates = vec![cand("x", ""), cand("y", "")];
    assert_eq!(candidate_ids(&candidates), strings(&["x", "y"]));
}

#[test]
fn indexed_entries_number_in_order() {
    let results = strings(&["p", "q"]);
    let listed = indexed_entries(&results);
    assert_eq!(listed, vec![(0usize, "p".to_string()), (1usize, "q".to_string())]);
    let again = indexed_entries(&results);
    assert_eq!(listed, again);
}

#[test]
fn compose_record_exact_layout() {
    let rec = NewRecord {
        title: "My Cool Site!".to_string(),
        url: "http://x".to_string(),
        tags: strings(&["a", "b"]),
        date: "2024-01-01".to_string(),
    };
    let (id, body) = compose_record(&rec);
    assert_eq!(id, "my-cool-site");
    assert_eq!(
        body,
        "title: My Cool Site!\nurl: http://x\ndate: 2024-01-01\n\n@a @b\n"
    );
}

#[test]
fn tags_line_rendering() {
    assert_eq!(render_tags_line(&strings(&[])), "");
    assert_eq!(render_tags_line(&strings(&["one"])), "@one");
    assert_eq!(render_tags_line(&strings(&["a", "b", "c"])), "@a @b @c");
}

#[test]
fn extract_url_reads_composed_record() {
    let rec = NewRecord {
        title: "T".to_string(),
        url: "http://example.org/page".to_string(),
        tags: strings(&["a"]),
        date: "2024-01-01".to_string(),
    };
    let (_, body) = compose_record(&rec);
    assert_eq!(extract_url(&body), Some("http://example.org/page".to_string()));
}

#[test]
fn extract_url_edge_cases() {
    assert_eq!(extract_url("title: x\nno link here\n"), None);
    assert_eq!(extract_url(""), None);
    assert_eq!(extract_url("url: http://a\nurl: http://b\n"), Some("http://a".to_string()));
    assert_eq!(extract_url("url:\nurl: http://b\n"), Some("http://b".to_string()));
    assert_eq!(extract_url("url: http://a trailing\n"), Some("http://a".to_string()));
}

#[test]
fn parse_args_splits_queries() {
    let r = parse_args(&strings(&["list", "rust", "web", "--title", "foo", "bar"]));
    assert_eq!(r.cmd, "list");
    assert_eq!(r.tag_query, strings(&["rust", "web"]));
    assert_eq!(r.title_query, strings(&["foo", "bar"]));
}

#[test]
fn parse_args_short_flag_and_empty() {
    let r = parse_args(&strings(&["open", "-t", "foo"]));
    assert_eq!(r.cmd, "open");
    assert_eq!(r.tag_query, strings(&[]));
    assert_eq!(r.title_query, strings(&["foo"]));
    let none = parse_args(&strings(&[]));
    assert_eq!(none.cmd, "");
    assert!(none.tag_query.is_empty());
    assert!(none.title_query.is_empty());
}

#[test]
fn status_messages() {
    assert_eq!(no_bookmarks_message(), "No bookmarks matching query.");
    assert_eq!(no_files_message(), "No files matching query.");
}
