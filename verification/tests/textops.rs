use pr_engine::text::{u64_to_string, split_lines, chars_vec, chars_start_with, chars_contain, chars_end_with, trim_chars, string_from_chars};
use pr_engine::search::tokenizer;
use pr_engine::session::{greet, mime_type_for, strip_git_dir};

#[test]
fn decimal_rendering_exact() {
    assert_eq!(u64_to_string(0), "0");
    assert_eq!(u64_to_string(7), "7");
    assert_eq!(u64_to_string(42), "42");
    assert_eq!(u64_to_string(90210), "90210");
    assert_eq!(u64_to_string(u64::MAX), "18446744073709551615");
}

#[test]
fn line_splitting_matches_str_lines() {
    let cases = [
        "",
        "one",
        "one\n",
        "one\ntwo",
        "one\ntwo\n",
        "a\r\nb\r\n",
        "a\rb\n",
        "\n\n",
        "tail\r",
    ];
    for case in cases {
        let got: Vec<String> = split_lines(case);
        let want: Vec<String> = case.lines().map(|s| s.to_string()).collect();
        assert_eq!(got, want, "case {:?}", case);
    }
}

#[test]
fn prefix_suffix_and_substring_tests() {
    let hay = chars_vec("4207");
    assert!(chars_start_with(hay.as_slice(), chars_vec("42").as_slice()));
    assert!(!chars_start_with(hay.as_slice(), chars_vec("20").as_slice()));
    assert!(chars_contain(hay.as_slice(), chars_vec("20").as_slice()));
    assert!(chars_contain(hay.as_slice(), chars_vec("").as_slice()));
    assert!(!chars_contain(hay.as_slice(), chars_vec("75").as_slice()));
    assert!(chars_end_with(hay.as_slice(), chars_vec("07").as_slice()));
    assert!(!chars_end_with(hay.as_slice(), chars_vec("42").as_slice()));
}

#[test]
fn trimming_strips_unicode_whitespace() {
    let trimmed = trim_chars(chars_vec("\t  hello world \u{a0}\n").as_slice());
    assert_eq!(string_from_chars(trimmed.as_slice()), "hello world");
    let all_space = trim_chars(chars_vec("   \n\t").as_slice());
    assert_eq!(string_from_chars(all_space.as_slice()), "");
}

#[test]
fn tokenizer_splits_and_lowercases() {
    let toks = tokenizer("Fix-Crash_in/Parser  NOW");
    let expect = vec!["fix", "crash", "in", "parser", "now"];
    let got: Vec<&str> = toks.iter().map(|s| s.as_str()).collect();
    assert_eq!(got, expect);
    assert!(tokenizer("--- // __").is_empty());
    assert!(tokenizer("").is_empty());
}

#[test]
fn greeting_text() {
    assert_eq!(greet("World"), "Hello, World! You've been greeted from Rust!");
}

#[test]
fn mime_types_by_extension() {
    assert_eq!(mime_type_for("a/b.png"), "image/png");
    assert_eq!(mime_type_for("a/b.jpg"), "image/jpeg");
    assert_eq!(mime_type_for("a/b.jpeg"), "image/jpeg");
    assert_eq!(mime_type_for("a/b.gif"), "image/gif");
    assert_eq!(mime_type_for("a/b.svg"), "image/svg+xml");
    assert_eq!(mime_type_for("a/b.webp"), "application/octet-stream");
}

#[test]
fn git_dir_suffix_stripping() {
    assert_eq!(strip_git_dir("/home/me/repo/.git/"), "/home/me/repo");
    assert_eq!(strip_git_dir("/home/me/repo"), "/home/me/repo");
    assert_eq!(strip_git_dir("/.git"), "");
}
