use lingxiao_core::json::{Json, JsonNumber};
use lingxiao_core::str_map::StrMap;
use lingxiao_core::text::{
    ascii_lower_char, chars_of, decimal_string, is_white_space, join_strings, lower_string,
    parse_number, part_before, replace_text, split_lines, split_text, split_words, text_contains,
    trim_string,
};
use lingxiao_core::text_order::{is_not_after, sort_strings};

const SAMPLES: [&str; 14] = [
    "",
    " ",
    "a",
    "a b",
    "  lead and trail\t\n",
    "one\ntwo\r\nthree\r",
    "\n\n",
    "\r\n",
    "x,y,,z,",
    "\u{3000}wide\u{2003}space\u{a0}",
    "MiXeD \u{c9}\u{df} case",
    "\u{1f600}\u{0}\u{7f}",
    "aaaa",
    "abababa",
];

#[test]
fn test_white_space_is_that_of_the_standard_library() {
    for n in 0..=0x10ffff_u32 {
        if let Some(c) = char::from_u32(n) {
            assert_eq!(is_white_space(c), c.is_whitespace(), "{n:x}");
            assert_eq!(ascii_lower_char(c), c.to_ascii_lowercase(), "{n:x}");
        }
    }
}

#[test]
fn test_texts_are_cut_as_by_the_standard_library() {
    for s in SAMPLES {
        let v = chars_of(s);
        assert_eq!(v, s.chars().collect::<Vec<_>>());
        assert_eq!(trim_string(s), s.trim());
        assert_eq!(lower_string(s), s.to_ascii_lowercase());
        assert_eq!(split_lines(&v), s.lines().map(String::from).collect::<Vec<_>>());
        assert_eq!(split_text(&v, ','), s.split(',').map(String::from).collect::<Vec<_>>());
        assert_eq!(split_words(&v), s.split_whitespace().map(String::from).collect::<Vec<_>>());
        for p in ["a", "ab", "aa", "aba", "\n", " "] {
            assert_eq!(text_contains(&v, &chars_of(p)), s.contains(p));
            assert_eq!(replace_text(s, p, "<r>"), s.replace(p, "<r>"));
            assert_eq!(part_before(s, p), s.split(p).next().unwrap());
        }
    }
    let parts = vec!["a".to_string(), "".to_string(), "b".to_string()];
    assert_eq!(join_strings(&parts, ", "), parts.join(", "));
}

#[test]
fn test_numbers_are_written_and_read() {
    for n in [0, 7, 10, 99, 100, 12_345, u64::MAX] {
        let s = decimal_string(n);
        assert_eq!(s, n.to_string());
        let v = chars_of(&s);
        assert_eq!(parse_number(&v, 0, v.len(), u64::MAX), Some(n));
    }
    for s in ["", "+", "+5", "-1", "007", "1a", "18446744073709551616", " 1"] {
        let v = chars_of(s);
        assert_eq!(parse_number(&v, 0, v.len(), u64::MAX), s.parse::<u64>().ok(), "{s}");
        assert_eq!(
            parse_number(&v, 0, v.len(), u32::MAX as u64),
            s.parse::<u32>().ok().map(u64::from),
            "{s}"
        );
    }
}

#[test]
fn test_texts_are_sorted_as_by_the_standard_library() {
    let mut all: Vec<String> = SAMPLES.iter().map(|s| s.to_string()).collect();
    let sorted = sort_strings(all.clone());
    all.sort();
    assert_eq!(sorted, all);
    for a in SAMPLES {
        for b in SAMPLES {
            assert_eq!(is_not_after(a, b), a <= b);
        }
    }
}

#[test]
fn test_small_maps() {
    let mut m: StrMap<u64> = StrMap::new();
    m.insert("b", 1);
    m.insert("a", 2);
    m.insert("b", 3);
    assert_eq!(m.len(), 2);
    assert_eq!(m.get("b"), Some(&3));
    assert!(m.contains_key("a"));
    assert_eq!(m.remove("a"), Some(2));
    assert_eq!(m.remove("a"), None);
    assert_eq!(m.get("a"), None);
}

#[test]
fn test_json_values_survive_writing_and_reading() {
    let v = Json::object()
        .with("a", Json::list(vec![Json::integer(-3), Json::number(u64::MAX), Json::Null]))
        .with("b", Json::object().with("t", Json::Bool(true)))
        .with("c", Json::text("q\"\\\n\u{1}\u{e9}"));
    let text = v.to_text();
    assert_eq!(
        text,
        "{\"a\":[-3,18446744073709551615,null],\"b\":{\"t\":true},\"c\":\"q\\\"\\\\\\n\\u0001\u{e9}\"}"
    );
    assert_eq!(Json::parse(&text), Ok(v));
}

#[test]
fn test_json_of_other_kinds() {
    assert!(Json::parse("{").unwrap_err().contains("EOF while parsing"));
    assert!(matches!(Json::parse("1.5"), Ok(Json::Number(JsonNumber::Other(_)))));
    assert_eq!(Json::parse("1.5").unwrap().to_text(), "1.5");
    assert_eq!(Json::parse("[1.5,-0.25e3]").unwrap().clone().to_text(), "[1.5,-250.0]");
    assert_eq!(Json::parse(r#"{"k":1,"k":2}"#).unwrap().to_text(), r#"{"k":2}"#);
    let twice = Json::object().with("k", Json::number(1)).with("k", Json::number(2));
    assert_eq!(*twice.get("k").unwrap(), Json::number(2));
    assert_eq!(twice.to_text(), r#"{"k":2}"#);
    let deep = "[".repeat(127) + &"]".repeat(127);
    assert_eq!(Json::parse(&deep).unwrap().to_text(), deep);
    assert!(Json::parse(&("[".repeat(128) + &"]".repeat(128))).is_err());
}
