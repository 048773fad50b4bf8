use kytti::map::StringMap;
use kytti::text::{chars_of, decimal_text, rank, same, split, trim, trim_end, trim_start, CharClass, Rank};

#[test]
fn classes_agree_with_unicode() {
    for n in 0..=0x10ffff_u32 {
        if let Some(c) = char::from_u32(n) {
            assert_eq!(CharClass::Whitespace.contains(c), c.is_whitespace(), "{n:x}");
            assert_eq!(CharClass::Control.contains(c), c.is_control(), "{n:x}");
            assert_eq!(CharClass::Slash.contains(c), c == '/', "{n:x}");
        }
    }
}

#[test]
fn trims_either_end() {
    for s in ["", "/", "//", "a", "/a", "a/", "//a/b//", "é/", "/ a /"] {
        assert_eq!(trim(s, CharClass::Slash), s.trim_matches('/'));
        assert_eq!(trim_end(s, CharClass::Slash), s.trim_end_matches('/'));
        assert_eq!(trim_start(s, CharClass::Slash), s.trim_start_matches('/'));
    }
    for s in ["", " ", "\t x y \n", "\u{3000}ü\u{a0}", "x"] {
        assert_eq!(trim(s, CharClass::Whitespace), s.trim());
    }
}

#[test]
fn splits_at_every_separator() {
    for s in ["", ",", "a", "a,b", ",a,,b,", "é,ü"] {
        let wanted: Vec<&str> = s.split(',').collect();
        assert_eq!(split(s, ','), wanted);
    }
}

#[test]
fn compares_and_orders_as_texts_do() {
    let all = ["", "a", "aa", "ab", "b", "é", "z", "\u{10000}", "\u{ffff}"];
    for a in all {
        for b in all {
            assert_eq!(same(a, b), a == b);
            let wanted = if a < b {
                Rank::Before
            } else if a == b {
                Rank::Same
            } else {
                Rank::After
            };
            assert_eq!(rank(a, b), wanted);
        }
    }
}

#[test]
fn writes_decimal_numbers() {
    for n in [0, 1, 9, 10, 42, 99, 100, 503, 65535, u64::MAX - 1, u64::MAX] {
        assert_eq!(decimal_text(n), format!("{n}"));
    }
}

#[test]
fn hands_out_characters() {
    assert_eq!(chars_of("aé\u{1f600}"), vec!['a', 'é', '\u{1f600}']);
    assert!(chars_of("").is_empty());
}

#[test]
fn maps_keep_their_keys_in_order() {
    let mut map = StringMap::new();
    for (k, v) in [("b", "1"), ("a", "2"), ("", "3"), ("ab", "4"), ("a", "5")] {
        map.insert(k.to_string(), v.to_string());
    }
    assert_eq!(map.len(), 4);
    let mut seen: Vec<(String, String)> = Vec::new();
    for i in 0..map.len() {
        let (k, v) = map.at(i);
        seen.push((k.clone(), v.clone()));
    }
    let wanted: Vec<(String, String)> = [("", "3"), ("a", "5"), ("ab", "4"), ("b", "1")]
        .iter()
        .map(|(k, v)| (k.to_string(), v.to_string()))
        .collect();
    assert_eq!(seen, wanted);
}

#[test]
fn maps_find_and_remove() {
    let mut map = StringMap::new();
    map.insert("k".to_string(), "v".to_string());
    map.insert("l".to_string(), "w".to_string());
    assert_eq!(map.get("k"), Some(&"v".to_string()));
    assert_eq!(map.get("x"), None);
    assert_eq!(map.remove("k"), Some("v".to_string()));
    assert_eq!(map.remove("k"), None);
    assert_eq!(map.get("k"), None);
    assert_eq!(map.get("l"), Some(&"w".to_string()));
    assert_eq!(map.len(), 1);
}
