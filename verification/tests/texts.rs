//! Texts and names.

use sinrana::names::{NameMap, NameSet};
use sinrana::text;

#[test]
fn trimming_agrees_with_std_for_every_character() {
    for u in 0..=0x10ffffu32 {
        if let Some(c) = char::from_u32(u) {
            let s = format!("{c}x{c}");
            assert_eq!(text::trim(&s), s.trim(), "U+{u:04X}");
        }
    }
}

#[test]
fn trimming_leaves_what_is_inside() {
    for s in ["", " ", "a", "  a b\t\u{3000}c \n", "\u{a0}", "a\u{85}"] {
        assert_eq!(text::trim(s), s.trim());
    }
}

#[test]
fn splitting_agrees_with_std() {
    for s in ["", " ", "a", "a b", "a  b", " a", "a ", "ü ß x", "\tx y"] {
        let expected = s.split_once(' ').map(|(a, b)| (a.to_string(), b.to_string()));
        assert_eq!(text::split_once_space(s), expected, "{s:?}");
        let words: Vec<String> = s.split_whitespace().map(|w| w.to_string()).collect();
        assert_eq!(text::split_words(s), words, "{s:?}");
    }
}

#[test]
fn commands_are_taken_apart() {
    assert_eq!(text::split_command("/kick  bob "), ("/kick".to_string(), "bob".to_string()));
    assert_eq!(text::split_command("/rooms"), ("/rooms".to_string(), String::new()));
    assert_eq!(text::split_command(""), (String::new(), String::new()));
}

#[test]
fn numbers_are_written_as_std_does() {
    for n in [0u64, 7, 10, 99, 100, 1_234_567_890, u64::MAX] {
        assert_eq!(text::decimal_text(n), n.to_string());
    }
    for n in [0i64, -1, 42, -1000, i64::MAX, i64::MIN] {
        assert_eq!(text::signed_decimal_text(n), n.to_string());
    }
}

#[test]
fn numbers_are_read_as_std_does() {
    for s in ["", "0", "7", "+7", "-7", "007", "4294967295", "4294967296", "99999999999999999999", "1a", "+", " 1", "\u{661}"] {
        assert_eq!(text::parse_number(s), s.parse::<u32>().ok(), "{s:?}");
    }
}

#[test]
fn bytes_are_written_in_hexadecimal() {
    assert_eq!(text::hex_text(&[0, 1, 0x7f, 0x80, 0xff]), "00017f80ff");
    assert_eq!(text::hex_text(&[]), "");
}

#[test]
fn order_agrees_with_std() {
    let all = ["", "a", "A", "b", "ab", "aa", "ä", "z", "ß", "\u{10000}", "\u{ffff}", "system"];
    for a in all {
        for b in all {
            assert_eq!(text::same_text(a, b), a == b);
            let before = matches!(text::compare(a, b), text::Order::Before);
            assert_eq!(before, a < b, "{a:?} {b:?}");
        }
    }
}

#[test]
fn names_are_listed_in_order_and_once() {
    let mut set = NameSet::new();
    for name in ["dave", "alice", "carol", "alice", "bob"] {
        set.insert(name);
    }
    set.remove("carol");
    set.remove("nobody");
    assert_eq!(set.names(), vec!["alice".to_string(), "bob".to_string(), "dave".to_string()]);
    assert!(set.contains("bob"));
    assert!(!set.contains("carol"));
}

#[test]
fn a_map_keeps_the_last_value() {
    let mut map: NameMap<String> = NameMap::new();
    map.insert("k", "1".to_string());
    map.insert("j", "2".to_string());
    map.insert("k", "3".to_string());
    assert_eq!(map.len(), 2);
    assert_eq!(map.get("k"), Some(&"3".to_string()));
    assert_eq!(map.names(), vec!["j".to_string(), "k".to_string()]);
    assert_eq!(map.remove("k"), Some("3".to_string()));
    assert_eq!(map.remove("k"), None);
    assert!(!map.contains("k"));
}
