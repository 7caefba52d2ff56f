use near_openrpc_client::decimal::{format_u128, parse_i64, parse_u128, parse_u64};
use near_openrpc_client::json::{get_entry, set_entry};
use near_openrpc_client::text::{
    contains, ends_with, find, join_lines, replace, same_text, slice, split_lines, starts_with,
    to_chars, to_string, trim, trim_end_matches, whitespace,
};
use near_openrpc_client::Json;

fn chars(s: &str) -> Vec<char> {
    to_chars(s)
}

fn lines_of(s: &str) -> Vec<String> {
    split_lines(&chars(s)).iter().map(to_string).collect()
}

#[test]
fn lines_end_at_line_feeds() {
    assert_eq!(lines_of("a\r\nb\n\nc"), vec!["a", "b", "", "c"]);
    assert_eq!(lines_of("a\n"), vec!["a"]);
    assert_eq!(lines_of("\n"), vec![""]);
    assert_eq!(lines_of("\n\n"), vec!["", ""]);
    assert_eq!(lines_of(""), Vec::<String>::new());
    // A carriage return ends a line only before a line feed.
    assert_eq!(lines_of("a\rb\r"), vec!["a\rb\r"]);
    assert_eq!(lines_of("a\r\r\n\r"), vec!["a\r", "\r"]);
    for text in [
        "", "a", "a\nb", "\n", "x\r\ny\n", "été\n", "\r\n\r\n", "a\n\n",
    ] {
        let expected: Vec<String> = text.lines().map(str::to_string).collect();
        assert_eq!(lines_of(text), expected, "{text:?}");
    }
}

#[test]
fn joined_lines_have_line_feeds_between_them() {
    let lines = vec![chars("a"), chars(""), chars("b\nc")];
    assert_eq!(to_string(&join_lines(&lines)), "a\n\nb\nc");
    assert_eq!(to_string(&join_lines(&vec![])), "");
    assert_eq!(to_string(&join_lines(&vec![chars("")])), "");
    assert_eq!(to_string(&join_lines(&vec![chars(""), chars("")])), "\n");
}

#[test]
fn text_goes_to_characters_and_back() {
    for text in ["", "abc", "naïve ☃ \u{10FFFF}"] {
        let expected: Vec<char> = text.chars().collect();
        assert_eq!(to_chars(text), expected);
        assert_eq!(to_string(&to_chars(text)), text);
    }
    assert!(same_text(&chars("ab"), &chars("ab")));
    assert!(!same_text(&chars("ab"), &chars("ac")));
    assert!(!same_text(&chars("ab"), &chars("abc")));
}

#[test]
fn trimming_removes_white_space_at_both_ends() {
    for text in [
        "",
        " ",
        "  a b  ",
        "\t\n a\u{A0}\u{3000}",
        "\u{2003}x\u{2028}",
        "a",
        "\u{200B}a",
        "\u{85}\u{1680}b\u{202F}\u{205F}",
    ] {
        assert_eq!(to_string(&trim(&chars(text))), text.trim(), "{text:?}");
    }
    for code in 0..0x3100u32 {
        if let Some(c) = char::from_u32(code) {
            assert_eq!(whitespace(c), c.is_whitespace(), "{code:#x}");
        }
    }
    assert_eq!(to_string(&trim_end_matches(&chars("u8,,,"), ',')), "u8");
    assert_eq!(to_string(&trim_end_matches(&chars(",a, "), ',')), ",a, ");
    assert_eq!(to_string(&trim_end_matches(&chars(",,"), ',')), "");
}

#[test]
fn prefixes_suffixes_and_occurrences_are_found() {
    let text = chars("pub enum Name {");
    assert!(starts_with(&text, &chars("pub enum ")));
    assert!(starts_with(&text, &chars("")));
    assert!(!starts_with(&text, &chars("enum")));
    assert!(!starts_with(&chars("pu"), &chars("pub")));
    assert!(ends_with(&text, &chars(" {")));
    assert!(ends_with(&text, &chars("")));
    assert!(!ends_with(&text, &chars("{ ")));
    assert_eq!(to_string(&slice(&text, 9, 13)), "Name");
    assert_eq!(to_string(&slice(&text, 3, 3)), "");
    assert_eq!(find(&chars("a: b: c"), &chars(": ")), Some(1));
    assert_eq!(find(&chars("a:b"), &chars(": ")), None);
    assert_eq!(find(&chars("ab"), &chars("")), Some(0));
    assert_eq!(find(&chars(""), &chars("")), Some(0));
    assert_eq!(find(&chars("aab"), &chars("ab")), Some(1));
    assert_eq!(find(&chars("ab"), &chars("abc")), None);
    assert!(contains(
        &chars("x skip_serializing_if y"),
        &chars("skip_serializing_if")
    ));
    assert!(!contains(
        &chars("skip_serializing"),
        &chars("skip_serializing_if")
    ));
}

#[test]
fn replacing_takes_occurrences_from_left_to_right() {
    let replace_in = |text: &str, from: &str, to: &str| {
        to_string(&replace(&chars(text), &chars(from), &chars(to)))
    };
    assert_eq!(replace_in("aaa", "aa", "b"), "ba");
    assert_eq!(replace_in("abcabc", "bc", ""), "aa");
    assert_eq!(replace_in("abc", "x", "y"), "abc");
    assert_eq!(replace_in("", "x", "y"), "");
    assert_eq!(
        replace_in("``` ```", "```", "```ignore"),
        "```ignore ```ignore"
    );
    assert_eq!(
        replace_in(
            "#/components/schemas/A",
            "#/components/schemas/",
            "#/definitions/"
        ),
        "#/definitions/A"
    );
    // An empty pattern replaces nothing.
    assert_eq!(replace_in("abc", "", "-"), "abc");
    for (text, from, to) in [
        ("abab", "ab", "ba"),
        ("xxxx", "xx", "x"),
        ("a.b.c", ".", "::"),
    ] {
        assert_eq!(replace_in(text, from, to), text.replace(from, to));
    }
}

#[test]
fn decimal_text_is_read_and_written() {
    assert_eq!(format_u128(0), "0");
    assert_eq!(format_u128(10), "10");
    assert_eq!(format_u128(909), "909");
    assert_eq!(format_u128(u128::MAX), u128::MAX.to_string());
    for text in [
        "0",
        "7",
        "+7",
        "007",
        "340282366920938463463374607431768211455",
    ] {
        assert_eq!(parse_u128(text), text.parse::<u128>().ok(), "{text:?}");
        assert!(parse_u128(text).is_some());
    }
    for text in [
        "",
        "+",
        "-",
        "-7",
        "7 ",
        " 7",
        "7_000",
        "0x7",
        "++7",
        "7+",
        "٧",
        "340282366920938463463374607431768211456",
        "999999999999999999999999999999999999999999",
    ] {
        assert_eq!(parse_u128(text), None, "{text:?}");
        assert_eq!(text.parse::<u128>().ok(), None, "{text:?}");
    }
    assert_eq!(parse_u64("18446744073709551615"), Some(u64::MAX));
    assert_eq!(parse_u64("18446744073709551616"), None);
    assert_eq!(parse_u64("+1"), None);
    assert_eq!(parse_u64(""), None);
    assert_eq!(parse_i64("-9223372036854775808"), Some(i64::MIN));
    assert_eq!(parse_i64("-9223372036854775809"), None);
    assert_eq!(parse_i64("9223372036854775807"), Some(i64::MAX));
    assert_eq!(parse_i64("9223372036854775808"), None);
    assert_eq!(parse_i64("-0"), Some(0));
    assert_eq!(parse_i64("-"), None);
    assert_eq!(parse_i64("--1"), None);
    assert_eq!(parse_i64("1e3"), None);
}

#[test]
fn later_entries_of_an_object_take_precedence() {
    let mut entries = vec![
        ("a".to_string(), Json::Bool(false)),
        ("b".to_string(), Json::Null),
        ("a".to_string(), Json::Bool(true)),
    ];
    assert_eq!(get_entry(&entries, "a"), Some(&Json::Bool(true)));
    assert_eq!(get_entry(&entries, "c"), None);
    set_entry(&mut entries, "a".to_string(), Json::Null);
    set_entry(&mut entries, "c".to_string(), Json::Bool(true));
    assert_eq!(
        entries,
        vec![
            ("a".to_string(), Json::Bool(false)),
            ("b".to_string(), Json::Null),
            ("a".to_string(), Json::Null),
            ("c".to_string(), Json::Bool(true)),
        ]
    );
    let object = Json::Object(entries);
    assert_eq!(object.get("a"), Some(&Json::Null));
    assert_eq!(object.clone(), object);
    assert_eq!(Json::Null.get("a"), None);
    assert_eq!(Json::string("x").as_str(), Some("x"));
    assert_eq!(object.as_str(), None);
    assert_eq!(Json::Array(vec![]).as_array(), Some(&vec![]));
    assert_eq!(object.as_array(), None);
    assert_eq!(Json::Null.as_object(), None);
}
