use std::path::Path;

use rauha::number::{
    decimal_of, hex_of, signed_decimal_of, three_digits_of, unsigned_in, NumberError,
};
use rauha::ordered::{OrderedMap, OrderedSet};
use rauha::paths::{file_name_of, join_path, parent_exists, parent_of, path_with_file_name};
use rauha::text::{
    chars_of, comes_before, contains_text, is_white, lines_of, lowered, padded_left, padded_right,
    swapped, text_of, trimmed,
};

#[test]
fn white_space_is_what_unicode_says() {
    for n in 0u32..=0x10ffff {
        if let Some(c) = char::from_u32(n) {
            assert_eq!(is_white(c), c.is_whitespace(), "{n:x}");
        }
    }
}

#[test]
fn trimming_and_lines_agree_with_strings() {
    for s in ["", " ", "a", " a b\t", "\u{a0}x\u{3000}", "\r\n", "a\r\nb\n\nc", "\n", "a\r", "x\n"] {
        let chars = chars_of(s);
        assert_eq!(text_of(trimmed(&chars)), s.trim());
        let lines: Vec<String> = lines_of(&chars).iter().map(|l| text_of(l)).collect();
        assert_eq!(lines, s.lines().collect::<Vec<_>>());
    }
}

#[test]
fn texts_are_searched_lowered_padded_and_swapped() {
    assert!(contains_text(&chars_of("abcabd"), &chars_of("abd")));
    assert!(!contains_text(&chars_of("abcab"), &chars_of("abd")));
    assert!(contains_text(&chars_of(""), &chars_of("")));
    assert_eq!(text_of(&lowered(&chars_of("SeCreT\u{c9}Z["))), "secret\u{c9}z[");
    assert_eq!(padded_right("\u{e9}a", 4), "\u{e9}a  ");
    assert_eq!(padded_left("1234567", 6), "1234567");
    assert_eq!(padded_left("12", 6), "    12");
    assert_eq!(swapped("a.b.c", '.', ' '), "a b c");
    assert!(comes_before(&chars_of("ab"), &chars_of("abc")));
    assert!(comes_before(&chars_of("Z"), &chars_of("a")));
    assert!(!comes_before(&chars_of("a"), &chars_of("a")));
}

#[test]
fn numbers_are_read_as_the_standard_library_reads_them() {
    for s in [
        "", "+", "-", "0", "00", "+5", "++5", "-5", " 5", "5 ", "18446744073709551615",
        "18446744073709551616", "99999999999999999999x", "1_0", "\u{663}",
    ] {
        match (unsigned_in(s, u64::MAX), s.parse::<u64>()) {
            (Ok(a), Ok(b)) => assert_eq!(a, b),
            (Err(a), Err(b)) => assert_eq!(a.message(), b.to_string()),
            (a, b) => panic!("{s}: {a:?} {b:?}"),
        }
    }
    assert_eq!(unsigned_in("4294967296", 4294967295), Err(NumberError::TooLarge));
    assert_eq!(unsigned_in("4294967295", 4294967295), Ok(4294967295));
}

#[test]
fn numbers_are_written() {
    for n in [0u64, 7, 10, 999, 1000, u64::MAX] {
        assert_eq!(decimal_of(n), n.to_string());
        assert_eq!(unsigned_in(&decimal_of(n), u64::MAX), Ok(n));
    }
    for n in [0i64, -1, 42, i64::MIN, i64::MAX] {
        assert_eq!(signed_decimal_of(n), n.to_string());
    }
    assert_eq!(three_digits_of(7), "007");
    assert_eq!(three_digits_of(42), "042");
    assert_eq!(three_digits_of(999), "999");
    assert_eq!(hex_of(&[0, 15, 16, 255]), "000f10ff");
}

#[test]
fn paths_agree_with_the_standard_library() {
    for p in [
        "", "/", ".", "..", "a", "a/", "a//", "/a", "//a", "a/b", "a//b", "a/./b", "a/b/.", "a/b/./",
        "a/..", "a/../", "./a", "./.", "/.", "/..", "/a/b/c.d", ".hidden", "a/.hidden", "...",
    ] {
        let std_path = Path::new(p);
        let name = std_path.file_name().map(|n| n.to_str().unwrap().to_string());
        assert_eq!(file_name_of(p), name, "name of {p}");
        assert_eq!(parent_exists(p), std_path.parent().is_some(), "parent of {p}");
        if let Some(parent) = std_path.parent() {
            assert_eq!(parent_of(p), parent.to_str().unwrap(), "parent of {p}");
        }
        for n in ["x", "x.y", "a/b", "/abs"] {
            assert_eq!(join_path(p, n), std_path.join(n).to_str().unwrap(), "{p} and {n}");
        }
        let renamed = std_path.with_file_name("new");
        assert_eq!(path_with_file_name(p, "new"), renamed.to_str().unwrap(), "{p} renamed");
        assert_eq!(file_name_of(&path_with_file_name(p, "new")), Some("new".to_string()));
    }
}

#[test]
fn maps_keep_their_keys_in_order() {
    let mut map: OrderedMap<u64> = OrderedMap::new();
    assert!(map.is_empty());
    assert_eq!(map.insert("b".to_string(), 1), None);
    assert_eq!(map.insert("a".to_string(), 2), None);
    assert_eq!(map.insert("c".to_string(), 3), None);
    assert_eq!(map.insert("b".to_string(), 4), Some(1));
    assert_eq!(map.keys(), vec!["a", "b", "c"]);
    assert_eq!(map.get("b"), Some(&4));
    assert_eq!(map.get("d"), None);
    assert_eq!(map.key_at(2), "c");
    assert_eq!(*map.value_at(2), 3);
    assert_eq!(map.clone(), map);
}

#[test]
fn sets_hold_each_string_once() {
    let mut set = OrderedSet::new();
    set.insert("b".to_string());
    set.insert("a".to_string());
    set.insert("b".to_string());
    assert_eq!(set.len(), 2);
    assert_eq!(set.to_vec(), vec!["a", "b"]);
    assert!(set.contains("a"));
    assert!(!set.contains("c"));
}
