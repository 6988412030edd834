use rudbman_app::ordered::{copy_text_map, text_rows, TextMap};
use rudbman_app::text::{
    blank, contains_text, decimal_text, find_text, joined, parse_number, same_text, text_occurs,
    trimmed,
};

#[test]
fn a_number_reads_back() {
    for number in [0u64, 7, 10, 4294967295, u64::MAX] {
        let text = decimal_text(number);
        assert_eq!(text, number.to_string());
        assert_eq!(parse_number(&text, u64::MAX), Some(number));
    }
    assert_eq!(parse_number("65536", 65535), None);
    assert_eq!(parse_number("", 9), None);
    assert_eq!(parse_number("1x", 99), None);
    assert_eq!(parse_number("+7", 9), "+7".parse::<u8>().ok().map(u64::from));
    assert_eq!(parse_number("007", 9), Some(7));
}

#[test]
fn a_text_is_found_where_it_first_stands() {
    assert_eq!(find_text("a.b.c", "."), Some(1));
    assert!(text_occurs("abc", "bc"));
    assert!(!text_occurs("abc", "ca"));
    assert!(text_occurs("abc", ""));
}

#[test]
fn white_space_is_trimmed_from_both_ends() {
    for text in ["  a b ", "\t\n", "", "\u{3000}x\u{a0}", "x"] {
        assert_eq!(trimmed(text), text.trim(), "{text:?}");
        assert_eq!(blank(text), text.trim().is_empty(), "{text:?}");
    }
}

#[test]
fn lists_of_texts_are_joined_and_searched() {
    let list = vec!["a".to_string(), "b".to_string()];
    assert_eq!(joined(&list, ", "), "a, b");
    assert_eq!(joined(&Vec::new(), ", "), "");
    assert!(contains_text(&list, "b"));
    assert!(!contains_text(&list, "c"));
    assert!(same_text("é", "é") && !same_text("e", "é"));
}

#[test]
fn a_map_keeps_its_keys_in_order_and_once() {
    let mut map = TextMap::new();
    for (key, value) in [("b", "1"), ("a", "2"), ("b", "3"), ("é", "4"), ("z", "5")] {
        map.insert(key.to_string(), value.to_string());
    }
    let rows = text_rows(&map);
    let keys: Vec<&str> = rows.iter().map(|(key, _)| key.as_str()).collect();
    let mut sorted = keys.clone();
    sorted.sort_unstable();
    assert_eq!(keys, sorted);
    assert_eq!(keys, ["a", "b", "z", "é"]);
    assert_eq!(map.get("b").map(String::as_str), Some("3"));
    assert_eq!(map.get("c"), None);
    assert_eq!(text_rows(&copy_text_map(&map)), rows);
}
