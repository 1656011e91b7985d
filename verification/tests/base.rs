use aoe::json::merge_json;
use aoe::json::parse_json;
use aoe::json::render_json;
use aoe::json::same_json;
use aoe::json::Json;
use aoe::json::JsonNumber;
use aoe::name_map::NameMap;
use aoe::text::decimal_of;
use aoe::text::decimal_of_i32;
use aoe::text::is_blank;
use aoe::text::is_white_space;
use aoe::text::text_less;

#[test]
fn white_space_is_that_of_unicode() {
    for code in 0..=0x10ffffu32 {
        if let Some(c) = char::from_u32(code) {
            assert_eq!(is_white_space(c), c.is_whitespace(), "{code:x}");
        }
    }
    assert!(is_blank(" \t\u{3000}"));
    assert!(!is_blank(" x "));
}

#[test]
fn texts_are_ordered_like_strings() {
    let samples = ["", "a", "aa", "ab", "b", "Z", "é", "\u{10000}", "\u{ffff}", "a\u{0}"];
    for a in samples {
        for b in samples {
            assert_eq!(text_less(a, b), a < b, "{a:?} {b:?}");
        }
    }
}

#[test]
fn numbers_are_written_in_decimal() {
    for n in [0, 9, 10, 123, u64::MAX] {
        assert_eq!(decimal_of(n), n.to_string());
    }
    for n in [0, -1, i32::MIN, i32::MAX] {
        assert_eq!(decimal_of_i32(n), n.to_string());
    }
}

#[test]
fn json_reads_back_what_it_writes() {
    for text in [
        "null",
        "true",
        "0",
        "18446744073709551615",
        "-9223372036854775808",
        "0.1",
        "-0.0",
        "1e+300",
        "\"a\\n\\u0001\\\"\"",
        "[[],{}]",
        "{\"a\":[1,2.5,{\"b\":null}]}",
    ] {
        let value = parse_json(text).unwrap();
        assert_eq!(render_json(&value), text);
        assert!(same_json(&parse_json(&render_json(&value)).unwrap(), &value));
    }
    assert!(parse_json("{").is_none());
    assert!(parse_json("").is_none());
    assert!(parse_json("01").is_none());
}

#[test]
fn deep_json_is_refused() {
    let deep = |n: usize| format!("{}{}", "[".repeat(n), "]".repeat(n));
    assert!(parse_json(&deep(127)).is_some());
    assert!(parse_json(&deep(128)).is_none());
}

#[test]
fn the_last_of_two_fields_counts() {
    let object = Json::Object(vec![
        ("a".to_string(), Json::unsigned(1)),
        ("a".to_string(), Json::unsigned(2)),
    ]);
    assert_eq!(object.get("a").unwrap().as_u64(), Some(2));
    assert_eq!(render_json(&object), "{\"a\":2}");
    assert!(same_json(&object, &parse_json("{\"a\":2}").unwrap()));
}

#[test]
fn numbers_compare_by_value() {
    let signed = Json::Number(JsonNumber::Signed(5));
    assert!(same_json(&signed, &Json::unsigned(5)));
    assert!(same_json(&parse_json("0.0").unwrap(), &parse_json("-0.0").unwrap()));
    assert!(!same_json(&parse_json("1").unwrap(), &parse_json("1.0").unwrap()));
    assert!(same_json(&parse_json("1.50").unwrap(), &parse_json("15e-1").unwrap()));
    assert_eq!(parse_json("-3").unwrap().as_u64(), None);
}

#[test]
fn sameness_is_that_of_serde() {
    let samples = ["null", "1", "-1", "1.0", "\"1\"", "[1]", "[1,2]", "{}", "{\"a\":1}", "{\"a\":2}", "{\"b\":1}"];
    for a in samples {
        for b in samples {
            let x: serde_json::Value = serde_json::from_str(a).unwrap();
            let y: serde_json::Value = serde_json::from_str(b).unwrap();
            assert_eq!(
                same_json(&parse_json(a).unwrap(), &parse_json(b).unwrap()),
                x == y,
                "{a} {b}"
            );
        }
    }
}

#[test]
fn patches_merge_field_by_field() {
    let base = parse_json("{\"a\":{\"x\":1,\"y\":2},\"b\":[1]}").unwrap();
    let patch = parse_json("{\"a\":{\"y\":3,\"z\":4},\"b\":[2],\"c\":null}").unwrap();
    assert!(same_json(
        &merge_json(&base, &patch),
        &parse_json("{\"a\":{\"x\":1,\"y\":3,\"z\":4},\"b\":[2],\"c\":null}").unwrap()
    ));
    assert!(merge_json(&base, &Json::Null).is_null());
}

#[test]
fn name_maps_keep_one_value_per_name_in_order() {
    let mut map: NameMap<u32> = NameMap::new();
    assert!(map.is_empty());
    for (name, value) in [("b", 1), ("a", 2), ("c", 3), ("b", 4)] {
        map.insert(name, value);
    }
    assert_eq!(map.keys(), ["a", "b", "c"]);
    assert_eq!(map.get("b"), Some(&4));
    assert_eq!(map.remove("b"), Some(4));
    assert_eq!(map.remove("b"), None);
    assert_eq!(map.get("b"), None);
    assert_eq!(map.keys(), ["a", "c"]);
}
