use rsnomadnet_core::table::{less, TextMap};
use rsnomadnet_core::text::{
    byte_len, clean_name_of, decimal_text, lines_of, lower_text, read_number, same_text,
    split_at_mark, text_has_control, trim_text,
};

fn chars(text: &str) -> Vec<char> {
    text.chars().collect()
}

#[test]
fn decimal_numbers_are_read_back() {
    for number in [0, 7, 10, 65535, u64::MAX] {
        let text = decimal_text(number);
        assert_eq!(text, format!("{number}"));
        assert_eq!(read_number(&chars(&text), u64::MAX), Some(number));
    }
    assert_eq!(read_number(&chars("+12"), 12), Some(12));
    assert_eq!(read_number(&chars("13"), 12), None);
    assert_eq!(read_number(&chars("18446744073709551616"), u64::MAX), None);
    assert_eq!(read_number(&chars("+"), 9), None);
    assert_eq!(read_number(&chars("-1"), 9), None);
    assert_eq!(read_number(&chars("1 "), 9), None);
    assert_eq!(read_number(&[], 9), None);
}

#[test]
fn trimming_is_idempotent() {
    let text = "\u{a0}\t  a b\u{2003}\r\n";
    assert_eq!(trim_text(text), text.trim());
    assert_eq!(trim_text(&trim_text(text)), "a b");
    assert_eq!(trim_text(" \u{3000} "), "");
}

#[test]
fn texts_are_split_and_lowered() {
    let text = chars("a||b|");
    let parts: Vec<String> = split_at_mark(&text, '|')
        .iter()
        .map(|part| part.iter().collect())
        .collect();
    assert_eq!(parts, ["a", "", "b", ""]);
    let lines = chars("x\r\n\ny");
    assert_eq!(lines_of(&lines).len(), 3);
    assert_eq!(lower_text("ÀBC"), "Àbc");
    assert_eq!(byte_len("Àb"), 3);
    assert!(same_text("ab", "ab") && !same_text("ab", "abc"));
    assert!(text_has_control("a\u{85}") && !text_has_control("aé"));
    assert_eq!(clean_name_of(" a\nb\u{7f}c d ", 6), "abc d");
}

#[test]
fn tables_walk_in_the_order_of_their_keys() {
    let mut table = TextMap::new();
    for (key, value) in [("b", 1), ("a", 2), ("ab", 3), ("b", 4)] {
        table.insert(key.to_string(), value);
    }
    let walked: Vec<(&str, i32)> = (0..table.len())
        .map(|i| (table.at(i).0.as_str(), *table.at(i).1))
        .collect();
    assert_eq!(walked, [("a", 2), ("ab", 3), ("b", 4)]);
    assert_eq!(table.remove("ab"), Some(3));
    assert_eq!(table.remove("ab"), None);
    assert!(table.contains("a") && !table.contains("ab"));
    assert_eq!(table.get("b"), Some(&4));
    let mut other = TextMap::new();
    other.insert("a".to_string(), 9);
    other.insert("z".to_string(), 8);
    table.extend(other);
    assert_eq!(table.get("a"), Some(&9));
    assert_eq!(table.len(), 3);
    table.retain_keys(&vec!["z".to_string(), "q".to_string()]);
    assert_eq!(table.len(), 1);
    assert_eq!(table.get("z"), Some(&8));
    assert!(less("a", "ab") && less("a", "b") && !less("b", "a") && !less("a", "a"));
}
