use liberado_actual_mcp::budget_api::arguments::clamp_limit;
use liberado_actual_mcp::json::{parse_json, Json};
use liberado_actual_mcp::sql::{stable_order, SortKey};
use liberado_actual_mcp::text::{
    before, contains_char, contains_ignoring_case, contains_text, format_int, format_padded,
    format_uint, lower, parse_int, read_leading_int, remove_char, same_ignoring_case, same_text,
    split_at_char, split_pieces, starts_with, strip_trailing, trim,
};

#[test]
fn white_space_is_trimmed() {
    let odd = "\u{3000}\u{2003}a b\u{a0}\u{85}\t\r\n";
    assert_eq!(trim(odd), "a b");
    assert_eq!(trim(odd), odd.trim());
    assert_eq!(trim(trim(odd)), trim(odd));
    assert_eq!(trim(" \n "), "");
    assert_eq!(trim("\u{200b}x"), "\u{200b}x");
}

#[test]
fn every_kind_of_white_space_is_known() {
    for code in 0..0x11000u32 {
        if let Some(c) = char::from_u32(code) {
            let text = format!("{c}x{c}");
            assert_eq!(trim(&text), text.trim(), "{code:x}");
        }
    }
}

#[test]
fn the_case_of_ascii_letters_is_folded() {
    assert_eq!(lower("AbÉz9"), "abÉz9");
    assert!(same_ignoring_case("GROCERIES", "groceries"));
    assert!(!same_ignoring_case("É", "é"));
    assert!(contains_ignoring_case("Weekly SHOP", "shop"));
    assert!(!contains_text("Weekly SHOP", "shop"));
    assert!(contains_text("abab", "bab") && contains_text("x", "") && !contains_text("", "x"));
    assert!(contains_char("a-b", '-') && !contains_char("ab", '-'));
    assert!(starts_with("budget API 4", "budget") && !starts_with("b", "budget"));
    assert!(same_text("ä", "ä") && !same_text("a", "ä"));
}

#[test]
fn texts_are_split() {
    assert_eq!(split_at_char("2024-01-15", '-'), Some(("2024", "01-15")));
    assert_eq!(split_at_char("ü-", '-'), Some(("ü", "")));
    assert_eq!(split_at_char("2024", '-'), None);
    assert_eq!(split_pieces("a,,b,", ','), vec!["a", "", "b", ""]);
    assert_eq!(split_pieces("", ','), vec![""]);
    assert_eq!(strip_trailing("http://h//", '/'), "http://h");
    assert_eq!(strip_trailing("//", '/'), "");
    assert_eq!(remove_char("2024-01-", '-'), "202401");
}

#[test]
fn texts_are_ordered_by_code_points() {
    let mut words = vec!["b", "", "a", "Z", "é", "ab", "\u{ffff}", "\u{10000}"];
    words.sort();
    for i in 0..words.len() {
        for j in 0..words.len() {
            assert_eq!(before(words[i], words[j]), i < j, "{} {}", words[i], words[j]);
        }
    }
}

#[test]
fn numbers_are_written_and_read() {
    for n in [0, 7, -7, 10, i64::MAX, i64::MIN] {
        assert_eq!(format_int(n), n.to_string());
        assert_eq!(format_padded(n, 4), format!("{n:04}"));
        assert_eq!(parse_int(&n.to_string()), Some(n));
    }
    assert_eq!(format_uint(u64::MAX), u64::MAX.to_string());
    for text in ["", "-", "+", "1a", " 1", "9223372036854775808", "-9223372036854775809", "--1"] {
        assert_eq!(parse_int(text), text.parse::<i64>().ok(), "{text}");
    }
    assert_eq!(parse_int("+007"), Some(7));
}

#[test]
fn the_number_in_front_is_read() {
    assert_eq!(read_leading_int("202401"), 202401);
    assert_eq!(read_leading_int(" \t-12x9"), -12);
    assert_eq!(read_leading_int("+3.7"), 3);
    assert_eq!(read_leading_int("x1"), 0);
    assert_eq!(read_leading_int(""), 0);
    assert_eq!(read_leading_int("99999999999999999999"), i64::MAX);
    assert_eq!(read_leading_int("-99999999999999999999"), i64::MIN);
}

fn key(first: i128, second: i128, text: Option<&str>) -> SortKey {
    SortKey { first, second, text: text.map(str::to_string) }
}

#[test]
fn rows_of_level_keys_keep_their_order() {
    let keys = vec![
        key(1, 0, Some("b")),
        key(0, 5, None),
        key(1, 0, None),
        key(1, 0, Some("a")),
        key(0, 5, None),
        key(1, -1, Some("z")),
    ];
    assert_eq!(stable_order(&keys), vec![1, 4, 5, 2, 3, 0]);
    assert!(stable_order(&vec![]).is_empty());
}

#[test]
fn a_great_many_rows_are_ordered() {
    let mut seed: u64 = 12345;
    let mut keys = Vec::new();
    let mut plain = Vec::new();
    for i in 0..500usize {
        seed = seed.wrapping_mul(6364136223846793005).wrapping_add(1442695040888963407);
        let (a, b) = (((seed >> 33) % 5) as i128, ((seed >> 40) % 3) as i128);
        keys.push(key(a, b, None));
        plain.push((a, b, i));
    }
    plain.sort();
    let expected: Vec<usize> = plain.iter().map(|p| p.2).collect();
    assert_eq!(stable_order(&keys), expected);
}

#[test]
fn limits_are_kept_within_bounds() {
    assert_eq!(clamp_limit(None, 500), 500);
    assert_eq!(clamp_limit(Some(0), 500), 1);
    assert_eq!(clamp_limit(Some(i64::MIN), 500), 1);
    assert_eq!(clamp_limit(Some(2001), 500), 2000);
    assert_eq!(clamp_limit(Some(1999), 500), 1999);
}

#[test]
fn documents_are_read_to_the_bottom() {
    let doc = parse_json(r#"{"a": [{"b": [[], {}, "té", -3, 4, 0.25, true, null]}]}"#).unwrap();
    let inner = doc.array_field("a").unwrap()[0].array_field("b").unwrap();
    assert_eq!(inner.len(), 8);
    assert!(matches!(&inner[0], Json::Array(v) if v.is_empty()));
    assert!(matches!(&inner[1], Json::Object(v) if v.is_empty()));
    assert_eq!(inner[2].as_str(), Some("té"));
    assert_eq!(inner[3].as_i64(), Some(-3));
    assert_eq!(inner[4].as_u64(), Some(4));
    assert!(matches!(&inner[5], Json::Decimal(t) if t == "0.25"));
    assert!(matches!(&inner[6], Json::Bool(true)));
    assert!(matches!(&inner[7], Json::Null));
    assert_eq!(inner[3].as_u64(), None);
}

#[test]
fn a_syntax_error_is_told() {
    let message = parse_json("{\"a\": }").unwrap_err();
    assert_eq!(message, serde_json::from_str::<serde_json::Value>("{\"a\": }").unwrap_err().to_string());
    assert!(parse_json("").is_err());
}

#[test]
fn objects_are_built_member_by_member() {
    let j = Json::empty_object().with("a", Json::Int(1)).with("a", Json::Int(2));
    assert_eq!(j.get("a").unwrap().as_i64(), Some(1));
    assert!(matches!(&j, Json::Object(m) if m.len() == 2 && m[1].name == "a"));
    assert!(matches!(Json::Null.with("a", Json::Null), Json::Null));
    assert!(j.get("b").is_none() && Json::Null.get("a").is_none());
}
