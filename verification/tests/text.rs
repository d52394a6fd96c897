use tweaker::names::NameMap;
use tweaker::number::{divide, integer_to_text, natural_to_text, padded, parse_size};
use tweaker::table::{sort_rows, Row};
use tweaker::text::{
    byte_len, contains, count_matches, join, lines, split, strip_newline, strip_prefix,
};

fn list(items: &[&str]) -> Vec<String> {
    items.iter().map(|s| s.to_string()).collect()
}

#[test]
fn splitting_and_joining() {
    assert_eq!(split("a b  c", ' '), list(&["a", "b", "", "c"]));
    assert_eq!(split("", ' '), list(&[""]));
    for text in ["", " ", "a", "a b", " a  b "] {
        assert_eq!(join(&split(text, ' '), " "), text);
    }
    assert_eq!(join(&vec![], ", "), "");
}

#[test]
fn lines_are_those_of_std() {
    for text in ["", "a", "a\n", "a\r\nb", "\n\n", "a\r", "a\n\rb\r\n"] {
        let expected: Vec<String> = text.lines().map(|l| l.to_string()).collect();
        assert_eq!(lines(text), expected);
    }
}

#[test]
fn occurrences_are_those_of_std() {
    let cases = [("aaa", "aa"), ("abab", "ab"), ("", ""), ("äö", ""), ("x", "xx"), ("a.b.", ".")];
    for (text, part) in cases {
        assert_eq!(count_matches(text, part), text.match_indices(part).count() as u128);
        assert_eq!(contains(text, part), text.contains(part));
    }
}

#[test]
fn prefixes_and_newlines() {
    assert_eq!(strip_prefix("!help", "!"), Some("help".to_string()));
    assert_eq!(strip_prefix("help", "!"), None);
    assert_eq!(strip_prefix("x", ""), Some("x".to_string()));
    assert_eq!(strip_newline("line\n"), Some("line".to_string()));
    assert_eq!(strip_newline("line"), None);
    assert_eq!(byte_len("äb"), 3);
}

#[test]
fn sizes_are_read_as_by_std() {
    let cases = [
        "0", "12", "+7", "-1", "", "+", "1x", " 1", "007", "18446744073709551615",
        "18446744073709551616", "99999999999999999999999999",
    ];
    for text in cases {
        assert_eq!(parse_size(text), text.parse::<usize>().ok());
    }
}

#[test]
fn numbers_read_back() {
    for n in [0usize, 9, 10, 256, 4096, usize::MAX] {
        assert_eq!(parse_size(&natural_to_text(n as u128)), Some(n));
    }
}

#[test]
fn numbers_are_written_as_by_std() {
    for n in [0i64, 5, 10, -1, -100, i64::MIN, i64::MAX] {
        assert_eq!(integer_to_text(n), format!("{n}"));
        assert_eq!(padded(n as i128, 2), format!("{n:02}"));
        assert_eq!(padded(n as i128, 3), format!("{n:03}"));
    }
    assert_eq!(natural_to_text(u128::MAX), format!("{}", u128::MAX));
}

#[test]
fn division_rounds_towards_zero() {
    for (a, b) in [(7i128, 2), (-7, 2), (0, 5), (-10, 5), (i128::MAX, 3)] {
        assert_eq!(divide(a, b), (a / b, a % b));
    }
}

#[test]
fn names_keep_their_first_place_and_last_value() {
    let mut map: NameMap<u8> = NameMap::new();
    assert_eq!(map.len(), 0);
    map.insert("a".to_string(), 1);
    map.insert("b".to_string(), 2);
    map.insert("a".to_string(), 3);
    assert_eq!(map.len(), 2);
    assert_eq!(map.list(), list(&["a", "b"]));
    assert_eq!(map.get("a"), Some(3));
    assert_eq!(map.get("c"), None);
}

#[test]
fn rows_sort_as_tuples_do() {
    let data = [("b", "x", "1"), ("a", "y", "2"), ("a", "x", "3"), ("a", "x", "1"), ("aa", "", "")];
    let rows: Vec<Row> = data
        .iter()
        .map(|(a, b, c)| Row {
            first: a.to_string(),
            second: b.to_string(),
            third: c.to_string(),
        })
        .collect();
    let sorted = sort_rows(&rows);
    let mut expected = data.to_vec();
    expected.sort();
    let got: Vec<(&str, &str, &str)> = sorted
        .iter()
        .map(|r| (r.first.as_str(), r.second.as_str(), r.third.as_str()))
        .collect();
    assert_eq!(got, expected);
}
