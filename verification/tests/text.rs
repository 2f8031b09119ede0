use std::path::Path;
use patingin::text::{
    char_is_whitespace, decimal_string, find_first, path_extension, read_usize, same_text, scan_chars,
    split_lines, split_whitespace, starts_with, to_chars, trim_chars, Stop,
};

fn chars(s: &str) -> Vec<char> {
    s.chars().collect()
}

fn strings(rows: Vec<Vec<char>>) -> Vec<String> {
    rows.into_iter().map(|r| r.into_iter().collect()).collect()
}

const SAMPLES: [&str; 14] = [
    "",
    "a",
    "\n",
    "\r\n",
    "a\nb",
    "a\nb\n",
    "a\r\nb\r",
    "\n\na\n\n",
    "a\r\r\nb",
    "\ra",
    "  two  words\t\u{a0}and\u{3000}more ",
    "no-newline-at-end\r",
    "é\nü\r\n",
    " \u{85} ",
];

#[test]
fn whitespace_is_what_the_standard_library_says() {
    let mut c = 0u32;
    while c <= 0x10FFFF {
        if let Some(ch) = char::from_u32(c) {
            assert_eq!(char_is_whitespace(ch), ch.is_whitespace(), "U+{:04X}", c);
        }
        c += 1;
    }
}

#[test]
fn lines_are_what_the_standard_library_says() {
    for sample in SAMPLES {
        let expected: Vec<String> = sample.lines().map(|l| l.to_string()).collect();
        assert_eq!(strings(split_lines(&chars(sample))), expected, "{:?}", sample);
    }
    assert_eq!(strings(split_lines(&chars("a\r\nb\r"))), vec!["a", "b\r"]);
}

#[test]
fn words_are_what_the_standard_library_says() {
    for sample in SAMPLES {
        let expected: Vec<String> = sample.split_whitespace().map(|l| l.to_string()).collect();
        assert_eq!(strings(split_whitespace(&chars(sample))), expected, "{:?}", sample);
    }
    assert_eq!(strings(split_whitespace(&chars("  two  words\t\u{a0}and\u{3000}more "))), vec!["two", "words", "and", "more"]);
}

#[test]
fn trimming_is_what_the_standard_library_says() {
    for sample in SAMPLES {
        let got: String = trim_chars(&chars(sample)).into_iter().collect();
        assert_eq!(got, sample.trim(), "{:?}", sample);
    }
    let got: String = trim_chars(&chars("\t x y \n")).into_iter().collect();
    assert_eq!(got, "x y");
}

#[test]
fn numbers_are_read_as_the_standard_library_reads_them() {
    let samples = [
        "0", "7", "007", "+7", "+", "", "-7", "++7", "7+", " 7", "7 ", "1_000", "१", "18446744073709551615",
        "18446744073709551616", "99999999999999999999999", "+00000000000000000000000000001", "4294967296",
    ];
    for sample in samples {
        let expected = sample.parse::<usize>().ok();
        let v = chars(sample);
        assert_eq!(read_usize(&v, 0, v.len()), expected, "{:?}", sample);
    }
    let v = chars("ab123cd");
    assert_eq!(read_usize(&v, 2, 5), Some(123));
    assert_eq!(read_usize(&v, 2, 2), None);
    assert_eq!(read_usize(&v, 1, 5), None);
}

#[test]
fn numbers_are_written_in_base_ten() {
    for n in [0usize, 1, 9, 10, 11, 99, 100, 101, 12345, 1_000_000, usize::MAX] {
        assert_eq!(decimal_string(n), format!("{}", n));
    }
}

#[test]
fn searching_finds_the_first_occurrence() {
    let hay = chars("abcabcab");
    assert_eq!(find_first(&hay, &chars("ca")), Some(2));
    assert_eq!(find_first(&hay, &chars("abcab")), Some(0));
    assert_eq!(find_first(&hay, &chars("cab")), Some(2));
    assert_eq!(find_first(&hay, &chars("abcabcab")), Some(0));
    assert_eq!(find_first(&hay, &chars("abcabcabc")), None);
    assert_eq!(find_first(&hay, &chars("x")), None);
    assert_eq!(find_first(&hay, &chars("")), Some(0));
    assert_eq!(find_first(&chars(""), &chars("")), Some(0));
    assert_eq!(find_first(&chars(""), &chars("a")), None);
    for (hay, needle) in [("hello world", "o w"), ("aaa", "aa"), ("ééé", "é"), ("abc", "c"), ("abc", "d")] {
        let expected = hay.find(needle).map(|byte| hay[..byte].chars().count());
        assert_eq!(find_first(&chars(hay), &chars(needle)), expected);
    }
}

#[test]
fn prefixes_and_equality() {
    let line = chars("diff --git a/x b/x");
    assert!(starts_with(&line, "diff --git"));
    assert!(starts_with(&line, ""));
    assert!(starts_with(&line, "diff --git a/x b/x"));
    assert!(!starts_with(&line, "diff --git a/x b/x "));
    assert!(!starts_with(&line, "iff"));
    assert!(same_text("abc", "abc"));
    assert!(same_text("", ""));
    assert!(!same_text("abc", "abd"));
    assert!(!same_text("abc", "ab"));
    assert!(!same_text("ab", "abc"));
    assert_eq!(to_chars("aé\n"), vec!['a', 'é', '\n']);
}

#[test]
fn scanning_stops_at_the_first_character_of_the_set() {
    let text = chars("ab  cd,e");
    assert_eq!(scan_chars(&text, 0, Stop::Whitespace), 2);
    assert_eq!(scan_chars(&text, 2, Stop::Whitespace), 2);
    assert_eq!(scan_chars(&text, 2, Stop::NonWhitespace), 4);
    assert_eq!(scan_chars(&text, 0, Stop::At(',')), 6);
    assert_eq!(scan_chars(&text, 7, Stop::At(',')), 8);
    assert_eq!(scan_chars(&text, 8, Stop::At('a')), 8);
    assert_eq!(scan_chars(&text, 0, Stop::At('z')), 8);
}

#[test]
fn extensions_follow_the_rules_for_paths() {
    let cases: Vec<(&str, Option<&str>)> = vec![
        ("a.ex", Some("ex")),
        ("lib/user.ex", Some("ex")),
        ("/abs/lib/user.test.exs", Some("exs")),
        ("a.", Some("")),
        ("a..b", Some("b")),
        (".hidden", None),
        (".hidden.ex", Some("ex")),
        ("dir.d/file", None),
        ("dir.d/", Some("d")),
        ("dir.d//", Some("d")),
        ("dir.d/.", Some("d")),
        ("dir.d/./", Some("d")),
        ("dir.d/..", None),
        ("..", None),
        (".", None),
        ("", None),
        ("/", None),
        ("./a.rs", Some("rs")),
        ("a.rs/b.py", Some("py")),
        ("...", Some("")),
        ("a.b.", Some("")),
        ("x/.././y.zig", Some("zig")),
        ("weird name.sql", Some("sql")),
        ("é.ü", Some("ü")),
    ];
    for (path, expected) in cases {
        assert_eq!(path_extension(path), expected.map(|e| e.to_string()), "{:?}", path);
        let std_says = Path::new(path).extension().and_then(|e| e.to_str()).map(|e| e.to_string());
        assert_eq!(path_extension(path), std_says, "{:?}", path);
    }
}
