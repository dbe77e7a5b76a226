use minigrep::contains_substring;
use minigrep::search_case_insensitive;
use minigrep::search_case_sensitive;
use minigrep::str_eq;

#[test]
fn case_sensitive() {
    let query = "duct";
    let contents = "\
Rust:
safe, fast, productive.
Pick three.";
    assert_eq!(
        vec!["safe, fast, productive.".to_string()],
        search_case_sensitive(query, contents)
    );
}

#[test]
fn case_insensitive() {
    let query = "rUsT";
    let contents = "\
Rust:
safe, fast, productive.
Pick three.";
    assert_eq!(
        vec!["Rust:".to_string()],
        search_case_insensitive(query, contents)
    );
}

#[test]
fn empty_query_matches_every_line() {
    let contents = "one\ntwo\nthree";
    let all = vec!["one".to_string(), "two".to_string(), "three".to_string()];
    assert_eq!(all, search_case_sensitive("", contents));
    assert_eq!(all, search_case_insensitive("", contents));
}

#[test]
fn empty_contents_yield_no_lines() {
    assert_eq!(Vec::<String>::new(), search_case_sensitive("anything", ""));
    assert_eq!(Vec::<String>::new(), search_case_insensitive("anything", ""));
    assert_eq!(Vec::<String>::new(), search_case_sensitive("", ""));
    assert_eq!(Vec::<String>::new(), search_case_insensitive("", ""));
}

#[test]
fn repeated_search_returns_identical_results() {
    let query = "st";
    let contents = "Rust:\nsafe, fast, productive.\nPick three.";
    let first = search_case_sensitive(query, contents);
    let second = search_case_sensitive(query, contents);
    assert_eq!(first, second);
    let first_ci = search_case_insensitive(query, contents);
    let second_ci = search_case_insensitive(query, contents);
    assert_eq!(first_ci, second_ci);
}

#[test]
fn matches_come_in_original_order() {
    let contents = "alpha\nbeta\ngamma\nalpine";
    assert_eq!(
        vec!["alpha".to_string(), "alpine".to_string()],
        search_case_sensitive("alp", contents)
    );
}

#[test]
fn line_with_query_twice_appears_once() {
    let contents = "echo echo\nother";
    assert_eq!(
        vec!["echo echo".to_string()],
        search_case_sensitive("echo", contents)
    );
}

#[test]
fn trailing_newline_adds_no_empty_line() {
    let with_newline = "abc\ndef\n";
    let without_newline = "abc\ndef";
    assert_eq!(
        search_case_sensitive("", without_newline),
        search_case_sensitive("", with_newline)
    );
}

#[test]
fn insensitive_matches_keep_original_casing() {
    let contents = "SAFE and sound\nnothing here";
    assert_eq!(
        vec!["SAFE and sound".to_string()],
        search_case_insensitive("safe", contents)
    );
}

#[test]
fn sensitive_search_respects_case() {
    let contents = "Rust:\nrust is lowercase";
    assert_eq!(
        vec!["rust is lowercase".to_string()],
        search_case_sensitive("rust", contents)
    );
}

#[test]
fn substring_containment_is_exact() {
    assert!(contains_substring("hello", "ell"));
    assert!(contains_substring("hello", "hello"));
    assert!(contains_substring("hello", ""));
    assert!(!contains_substring("hello", "hellos"));
    assert!(!contains_substring("hello", "xy"));
    assert!(!contains_substring("", "a"));
}

#[test]
fn string_equality_is_exact() {
    assert!(str_eq("abc", "abc"));
    assert!(str_eq("", ""));
    assert!(!str_eq("abc", "abd"));
    assert!(!str_eq("abc", "ab"));
}
