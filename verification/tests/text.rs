use colink::notes::links::squeeze_blank_lines_chars;
use colink::text::{contains_chars, decimal_string, parse_u64_chars, replace_chars, trim_chars};

fn chars(s: &str) -> Vec<char> {
    s.chars().collect()
}

#[test]
fn replace_chars_replaces_without_overlap() {
    let out = replace_chars(&chars("aaaa"), &chars("aa"), &chars("b"));
    assert_eq!(out.iter().collect::<String>(), "bb");
    let out = replace_chars(&chars("xaax"), &chars("a"), &chars(""));
    assert_eq!(out.iter().collect::<String>(), "xx");
}

#[test]
fn contains_chars_finds_inner_and_empty_patterns() {
    assert!(contains_chars(&chars("hello"), &chars("ll")));
    assert!(!contains_chars(&chars("hello"), &chars("lo!")));
    assert!(contains_chars(&chars("hi"), &chars("")));
    assert!(!contains_chars(&chars("hi"), &chars("hij")));
}

#[test]
fn decimal_and_parse_round_trip() {
    assert_eq!(decimal_string(1234567890), "1234567890");
    assert_eq!(parse_u64_chars(&chars("1234567890")), Some(1234567890));
    assert_eq!(parse_u64_chars(&chars("18446744073709551616")), None);
    assert_eq!(trim_chars(&chars("  x y \n")).iter().collect::<String>(), "x y");
}

#[test]
fn blank_line_runs_shrink_to_two() {
    let out = squeeze_blank_lines_chars(&chars("a\n\n\n\n\nb\n\nc\n\n\n"));
    assert_eq!(out.iter().collect::<String>(), "a\n\nb\n\nc\n\n");
}
