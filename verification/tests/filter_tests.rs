use pluckrs::filter::{get_filtered_data_from_lines, CompiledRegex};

fn compile(pattern: &str) -> CompiledRegex {
    CompiledRegex::compile(pattern).expect("pattern should compile")
}

#[test]
fn path_regex_collapses_duplicates() {
    let lines = vec![
        "/usr/bin".to_string(),
        "/usr/bin".to_string(),
        "see https://a.com and https://b.com".to_string(),
    ];
    let re = compile(r"^(/[\w.-]+)+");
    let out = get_filtered_data_from_lines(&lines, &re, 5);
    assert_eq!(out, "/usr/bin");
}

#[test]
fn url_regex_keeps_both_urls_in_order() {
    let lines = vec![
        "/usr/bin".to_string(),
        "/usr/bin".to_string(),
        "see https://a.com and https://b.com".to_string(),
    ];
    let re = compile(r"https?://[\w./-]+");
    let out = get_filtered_data_from_lines(&lines, &re, 5);
    assert_eq!(out, "https://a.com\nhttps://b.com");
}

#[test]
fn output_has_no_duplicates_and_keeps_first_seen_order() {
    let lines = vec!["b a b".to_string(), "a c".to_string()];
    let re = compile(r"[a-z]");
    let out = get_filtered_data_from_lines(&lines, &re, 1);
    assert_eq!(out, "b\na\nc");
}

#[test]
fn matches_below_minimum_length_are_dropped() {
    let lines = vec!["abc abcd".to_string()];
    let re = compile(r"[a-z]+");
    let out = get_filtered_data_from_lines(&lines, &re, 4);
    assert_eq!(out, "abcd");
}

#[test]
fn matches_of_exactly_minimum_length_are_kept() {
    let lines = vec!["abc abcd".to_string()];
    let re = compile(r"[a-z]+");
    let out = get_filtered_data_from_lines(&lines, &re, 3);
    assert_eq!(out, "abc\nabcd");
}

#[test]
fn surviving_matches_are_trimmed() {
    let lines = vec!["x   hello".to_string()];
    let re = compile(r"\s+[a-z]+");
    let out = get_filtered_data_from_lines(&lines, &re, 5);
    assert_eq!(out, "hello");
}

#[test]
fn no_match_gives_empty_output() {
    let lines = vec!["0123".to_string()];
    let re = compile(r"[a-z]+");
    let out = get_filtered_data_from_lines(&lines, &re, 1);
    assert_eq!(out, "");
}

#[test]
fn invalid_pattern_is_refused() {
    assert!(CompiledRegex::compile("(").is_none());
}
