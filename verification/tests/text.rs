//! Texts and numbers.
use yaffle::bytes::{ascii_of, copy_bytes, lossy_string, utf8_string};
use yaffle::fieldmap::FieldMap;
use yaffle::number::{parse_i64, parse_u64, to_decimal, to_hex, to_signed_decimal};
use yaffle::text::{join_strings, list_contains, split_on, str_eq, str_less};

fn strings(v: &[&str]) -> Vec<String> {
    v.iter().map(|s| s.to_string()).collect()
}

#[test]
fn numbers_as_text() {
    for n in [0, 1, 9, 10, 255, 4096, u64::MAX] {
        assert_eq!(to_decimal(n), n.to_string());
        assert_eq!(to_hex(n), format!("{:x}", n));
        assert_eq!(parse_u64(&to_decimal(n), 10), Some(n));
        assert_eq!(parse_u64(&to_hex(n), 16), Some(n));
    }
    for n in [0, 7, -7, i64::MAX, i64::MIN] {
        assert_eq!(to_signed_decimal(n), n.to_string());
        assert_eq!(parse_i64(&to_signed_decimal(n), 10), Some(n));
    }
}

#[test]
fn text_as_numbers() {
    for s in [
        "", "+", "-", "0", "+5", "-5", "--5", "+-5", "007", " 5", "5 ", "1e3", "18446744073709551615",
        "18446744073709551616", "9223372036854775807", "9223372036854775808",
        "-9223372036854775808", "-9223372036854775809", "٣", "ff", "FF", "0x1",
    ] {
        assert_eq!(parse_u64(s, 10), s.parse::<u64>().ok(), "{}", s);
        assert_eq!(parse_i64(s, 10), s.parse::<i64>().ok(), "{}", s);
        assert_eq!(parse_u64(s, 16), u64::from_str_radix(s, 16).ok(), "{}", s);
        assert_eq!(parse_i64(s, 16), i64::from_str_radix(s, 16).ok(), "{}", s);
    }
}

#[test]
fn texts_are_ordered_as_strings() {
    let words = ["", "a", "ab", "b", "é", "\u{ffff}", "\u{10000}", "Z"];
    for a in words {
        for b in words {
            assert_eq!(str_less(a, b), a < b);
            assert_eq!(str_eq(a, b), a == b);
        }
    }
}

#[test]
fn splitting_and_joining() {
    for s in ["", ",", "a", "a,b", ",a,,b,", "é,ü"] {
        let want: Vec<String> = s.split(',').map(String::from).collect();
        assert_eq!(split_on(s, ','), want);
        assert_eq!(join_strings(&want, ","), s);
    }
    assert_eq!(join_strings(&vec![], ","), "");
    assert_eq!(join_strings(&strings(&["a", "b"]), "--"), "a--b");
    assert!(list_contains(&strings(&["a", "b"]), "b"));
    assert!(!list_contains(&strings(&["a", "b"]), "c"));
}

#[test]
fn bytes_as_text() {
    let bytes = "a\u{e9}".as_bytes();
    assert_eq!(utf8_string(bytes, 0, 3), Some("a\u{e9}".to_string()));
    assert_eq!(utf8_string(bytes, 0, 2), None);
    assert_eq!(lossy_string(bytes, 0, 2), "a\u{fffd}");
    assert_eq!(lossy_string(bytes, 1, 3), "\u{e9}");
    assert_eq!(copy_bytes(bytes, 1, 2), vec![0xc3]);
    assert_eq!(ascii_of(b"ab", 0, 2), vec!['a', 'b']);
}

#[test]
fn maps_remember_their_order() {
    let mut map: FieldMap<String> = FieldMap::new();
    assert_eq!(map.len(), 0);
    for (k, v) in [("b", "1"), ("a", "2"), ("b", "3")] {
        map.insert(k.to_string(), v.to_string());
    }
    assert_eq!(map.len(), 2);
    assert_eq!((map.name_at(0).as_str(), map.name_at(1).as_str()), ("b", "a"));
    assert_eq!(map.get("b"), Some(&"3".to_string()));
    assert_eq!(map.get("c"), None);
}
