//! Texts, numbers, instants and stored values.
use gridops::clock::{github_date_millis, iso, iso_optional, millis_since_epoch, now_millis};
use gridops::json::{
    encode_flag, encode_number, encode_strings, json_array, stored_flag, stored_number,
};
use gridops::numbers::{
    clamp, decimal_i64, decimal_u64, difference_saturated, parse_i64, parse_u64,
    product_saturated, sum_saturated,
};
use gridops::order::{at_most, increasing_unique, sorted_unique};
use gridops::search::{
    contains, is_blank, join, lines, pieces, replace_char, split_once, starts_with, strip_prefix,
    take_chars, trim, trim_end, words,
};
use gridops::text::{byte_len, same, same_ignoring_case, to_lower};

fn strings(list: &[&str]) -> Vec<String> {
    list.iter().map(|text| text.to_string()).collect()
}

const SAMPLES: [&str; 12] = [
    "",
    " ",
    "\t a b \u{a0}",
    "\u{2003}wide\u{3000}",
    "\u{85}next\u{1680}line\u{200a}",
    "no\u{200b}space",
    "line one\r\nline two\nline three",
    "ends\n",
    "\n\n",
    "a\rb\r\n",
    "\u{feff}mark",
    "\u{1f}unit\u{c}feed\u{b}",
];

#[test]
fn trimming_agrees_with_the_standard_library() {
    for sample in SAMPLES {
        assert_eq!(trim(sample), sample.trim());
        assert_eq!(trim_end(sample), sample.trim_end());
        assert_eq!(is_blank(sample), sample.trim().is_empty());
        let expected: Vec<&str> = sample.split_whitespace().collect();
        assert_eq!(words(sample), strings(&expected));
    }
}

#[test]
fn lines_agree_with_the_standard_library() {
    for sample in SAMPLES {
        let expected: Vec<&str> = sample.lines().collect();
        assert_eq!(lines(sample), strings(&expected));
    }
}

#[test]
fn pieces_agree_with_the_standard_library() {
    for sample in ["", "a", "a;b", ";", "a;;b;"] {
        let expected: Vec<&str> = sample.split(';').collect();
        assert_eq!(pieces(sample, ';'), strings(&expected));
        assert_eq!(
            split_once(sample, ';'),
            sample
                .split_once(';')
                .map(|(head, tail)| (head.to_string(), tail.to_string()))
        );
    }
    assert_eq!(join(&strings(&["a", "b", "c"]), ", "), "a, b, c");
    assert_eq!(join(&[], ", "), "");
    assert_eq!(replace_char("a-b-c", '-', '.'), "a.b.c");
}

#[test]
fn texts_are_found_in_texts() {
    assert!(contains("runner pool", "er p"));
    assert!(contains("runner", ""));
    assert!(!contains("", "x"));
    assert!(starts_with("runner", "run"));
    assert!(!starts_with("run", "runner"));
    assert_eq!(strip_prefix("sha256=ab", "sha256=").as_deref(), Some("ab"));
    assert_eq!(strip_prefix("ab", "sha256="), None);
    assert_eq!(take_chars("größer", 3), "grö");
    assert_eq!(byte_len("größer"), 8);
    assert!(same("a", "a"));
    assert!(!same("a", "A"));
    assert!(same_ignoring_case("macOS", "MACos"));
    assert!(!same_ignoring_case("É", "é"));
    assert_eq!(to_lower("MacOS É"), "macos É");
}

#[test]
fn order_agrees_with_the_standard_library() {
    let list = ["", "a", "A", "ab", "b", "é", "z", "\u{10000}", "\u{ffff}"];
    for a in list {
        for b in list {
            assert_eq!(at_most(a, b), a <= b);
        }
    }
    assert_eq!(
        sorted_unique(&strings(&["b", "a", "b", "A"])),
        strings(&["A", "a", "b"])
    );
    assert_eq!(increasing_unique(&[3, -1, 3, 2]), vec![-1, 2, 3]);
}

#[test]
fn numbers_read_back() {
    for n in [0, 7, -7, 10, -100, i64::MAX, i64::MIN] {
        assert_eq!(decimal_i64(n), n.to_string());
        assert_eq!(parse_i64(&decimal_i64(n)), Some(n));
    }
    assert_eq!(decimal_u64(u64::MAX), u64::MAX.to_string());
    for text in ["", "+", "-", "+5", "-0", "007", "9223372036854775808", "1 ", "1.0"] {
        assert_eq!(parse_i64(text), text.parse::<i64>().ok());
        assert_eq!(parse_u64(text), text.parse::<u64>().ok());
    }
    assert_eq!(sum_saturated(i64::MAX, 1), i64::MAX);
    assert_eq!(difference_saturated(i64::MIN, 1), i64::MIN);
    assert_eq!(product_saturated(i64::MAX, -2), i64::MIN);
    assert_eq!(clamp(50, 1, 10), 10);
}

#[test]
fn instants_are_written_and_read() {
    assert_eq!(iso(0), "1970-01-01T00:00:00.000Z");
    assert_eq!(
        iso_optional(Some(1_784_592_000_123)).as_deref(),
        Some("2026-07-21T00:00:00.123Z")
    );
    assert_eq!(iso_optional(None), None);
    assert_eq!(iso(i64::MAX), "");
    assert_eq!(
        github_date_millis(Some("2026-07-21T02:00:00+02:00")),
        Some(1_784_592_000_000)
    );
    assert_eq!(github_date_millis(Some("yesterday")), None);
    assert_eq!(github_date_millis(None), None);
    assert_eq!(millis_since_epoch(None), 0);
    assert_eq!(millis_since_epoch(Some(5)), 5);
    assert_eq!(millis_since_epoch(Some(u128::MAX)), i64::MAX);
    assert!(now_millis() > 1_700_000_000_000);
}

#[test]
fn stored_values_read_back() {
    let list = strings(&["docker", "a \"quoted\" label", "é"]);
    assert_eq!(json_array(&encode_strings(&list)), list);
    assert_eq!(
        encode_strings(&strings(&["docker", "tart"])),
        r#"["docker","tart"]"#
    );
    assert_eq!(json_array("no list"), Vec::<String>::new());
    assert_eq!(encode_number(-3), "-3");
    assert_eq!(stored_number(Some(&encode_number(-3)), 9), -3);
    assert_eq!(stored_number(Some(" \t\r\n42 \n"), 9), 42);
    assert_eq!(stored_number(Some("-9223372036854775808"), 9), i64::MIN);
    for text in ["1.5", "1.0", "1e2", "-0", "01", "+1", "- 1", "1 2", "\u{a0}1", ""] {
        assert_eq!(stored_number(Some(text), 9), 9);
    }
    assert_eq!(stored_number(Some("9223372036854775808"), 9), 9);
    assert_eq!(stored_number(Some("-9223372036854775809"), 9), 9);
    assert_eq!(stored_number(None, 9), 9);
    assert_eq!(encode_flag(true), "true");
    assert!(stored_flag(Some(&encode_flag(true)), false));
    assert!(stored_flag(Some("1"), true));
    assert!(stored_flag(Some("\n true\t"), false));
    assert!(!stored_flag(Some("false\r"), true));
    for text in ["True", "tr ue", "true false", "\u{a0}true", ""] {
        assert!(stored_flag(Some(text), true));
        assert!(!stored_flag(Some(text), false));
    }
    assert!(!stored_flag(None, false));
}
