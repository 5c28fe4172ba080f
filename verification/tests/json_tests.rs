use clawpal::json::{Json, JsonNumber};
use clawpal::text::{
    chars_of, contains_char, find_char, has_prefix, i32_to_string, join_lines, split_lines,
    str_eq, trim, trim_end, trimmed_is, u64_to_string, usize_to_string,
};

fn s(text: &str) -> Json {
    Json::Str(text.to_string())
}

fn chars(text: &str) -> Vec<char> {
    text.chars().collect()
}

#[test]
fn parse_and_print_round_trip() {
    let v = Json::parse("{\"b\":[1,-2,3.25,\"x\",true,null],\"a\":{}}").unwrap();
    assert_eq!(
        v,
        Json::Object(vec![
            ("a".to_string(), Json::Object(vec![])),
            (
                "b".to_string(),
                Json::Array(vec![
                    Json::Number(JsonNumber::PosInt(1)),
                    Json::Number(JsonNumber::NegInt(-2)),
                    Json::Number(JsonNumber::Float("3.25".to_string())),
                    s("x"),
                    Json::Bool(true),
                    Json::Null,
                ])
            ),
        ])
    );
    assert_eq!(v.to_text(), "{\"a\":{},\"b\":[1,-2,3.25,\"x\",true,null]}");
    assert_eq!(Json::parse(&v.to_text()).unwrap(), v);
}

#[test]
fn parse_errors_have_text() {
    let err = Json::parse("{\"a\":").unwrap_err();
    assert!(!err.is_empty());
    assert!(Json::parse("").is_err());
    assert!(Json::parse("{} x").is_err());
}

#[test]
fn large_numbers() {
    assert_eq!(
        Json::parse("18446744073709551615").unwrap(),
        Json::Number(JsonNumber::PosInt(u64::MAX))
    );
    assert_eq!(
        Json::parse("-9223372036854775808").unwrap(),
        Json::Number(JsonNumber::NegInt(i64::MIN))
    );
    assert_eq!(Json::Number(JsonNumber::PosInt(u64::MAX)).to_text(), "18446744073709551615");
    assert_eq!(Json::Number(JsonNumber::Float("0.5".into())).to_text(), "0.5");
    assert_eq!(Json::Number(JsonNumber::Float("junk".into())).to_text(), "null");
}

#[test]
fn printing_escapes_strings() {
    assert_eq!(s("a\"b\\c\n").to_text(), "\"a\\\"b\\\\c\\n\"");
    assert_eq!(s("\u{e9}").to_text(), "\"\u{e9}\"");
}

#[test]
fn last_member_of_a_name_wins() {
    let v = Json::Object(vec![("k".to_string(), s("first")), ("k".to_string(), s("last"))]);
    assert_eq!(v.get("k"), Some(&s("last")));
    assert_eq!(v.to_text(), "{\"k\":\"last\"}");
    assert_eq!(v.str_at("k"), Some("last"));
}

#[test]
fn accessors() {
    let v = Json::Object(vec![("a".to_string(), s("x")), ("n".to_string(), Json::Number(JsonNumber::PosInt(4)))]);
    assert_eq!(v.get("a"), Some(&s("x")));
    assert_eq!(v.get("b"), None);
    assert_eq!(Json::Null.get("a"), None);
    assert_eq!(v.str_at("a"), Some("x"));
    assert_eq!(v.str_at("n"), None);
    assert_eq!(s("t").as_str(), Some("t"));
    assert_eq!(Json::Null.as_str(), None);
    assert_eq!(Json::Bool(true).as_bool(), Some(true));
    assert_eq!(s("true").as_bool(), None);
    assert_eq!(Json::Number(JsonNumber::PosInt(4)).as_u64(), Some(4));
    assert_eq!(Json::Number(JsonNumber::NegInt(-4)).as_u64(), None);
    assert_eq!(Json::Number(JsonNumber::Float("4.0".into())).as_u64(), None);
    assert_eq!(Json::Array(vec![Json::Null]).as_array(), Some(&vec![Json::Null]));
    assert_eq!(Json::Null.as_array(), None);
    assert!(Json::Null.is_null());
    assert!(!Json::Bool(false).is_null());
    assert_eq!(v.deep_clone(), v);
    assert_eq!(v.clone(), v);
}

#[test]
fn numbers_to_text() {
    assert_eq!(u64_to_string(0), "0");
    assert_eq!(u64_to_string(7), "7");
    assert_eq!(u64_to_string(10), "10");
    assert_eq!(u64_to_string(9876543210), "9876543210");
    assert_eq!(u64_to_string(u64::MAX), u64::MAX.to_string());
    assert_eq!(usize_to_string(305), "305");
    assert_eq!(i32_to_string(0), "0");
    assert_eq!(i32_to_string(42), "42");
    assert_eq!(i32_to_string(-1), "-1");
    assert_eq!(i32_to_string(i32::MIN), "-2147483648");
    assert_eq!(i32_to_string(i32::MAX), "2147483647");
}

#[test]
fn text_basics() {
    assert!(str_eq("a", "a"));
    assert!(!str_eq("a", "b"));
    assert_eq!(chars_of("h\u{e9}\u{4e2d}"), vec!['h', '\u{e9}', '\u{4e2d}']);
    assert!(has_prefix(&chars("cat x"), "cat "));
    assert!(!has_prefix(&chars("ca"), "cat "));
    assert!(has_prefix(&chars("x"), ""));
    assert_eq!(find_char(&chars("a{b{"), '{'), Some(1));
    assert_eq!(find_char(&chars("ab"), '{'), None);
    assert!(contains_char(&chars("a/b"), '/'));
    assert!(!contains_char(&chars("ab"), '/'));
}

#[test]
fn trimming() {
    assert_eq!(trim("  a b \t\n"), "a b");
    assert_eq!(trim(""), "");
    assert_eq!(trim(" \u{a0}\u{3000}x\u{2003}"), "x");
    assert_eq!(trim("\u{200b}x"), "\u{200b}x");
    assert_eq!(trim_end("  a \n"), "  a");
    assert_eq!(trim_end(" \n"), "");
    assert!(trimmed_is(&chars(" date\n"), "date"));
    assert!(!trimmed_is(&chars(" date x"), "date"));
    assert!(trimmed_is(&chars("   "), ""));
    for text in ["", " ", " a", "a ", "\u{85}a\u{1680}", "\u{2028}\u{2029}x\u{202f}\u{205f}", "\u{b}\u{c}\r x"] {
        assert_eq!(trim(text), text.trim());
        assert_eq!(trim_end(text), text.trim_end());
    }
}

#[test]
fn lines() {
    let split = |text: &str| -> Vec<String> {
        split_lines(&chars(text)).into_iter().map(|l| l.into_iter().collect()).collect()
    };
    assert_eq!(split("a\nb\r\nc"), vec!["a", "b", "c"]);
    assert_eq!(split("a\n"), vec!["a"]);
    assert_eq!(split(""), Vec::<String>::new());
    assert_eq!(split("\n\n"), vec!["", ""]);
    assert_eq!(split("a\r"), vec!["a\r"]);
    let joined: String = join_lines(&vec![chars("a"), chars("b"), chars("c")], 1).into_iter().collect();
    assert_eq!(joined, "b\nc");
    assert!(join_lines(&vec![chars("a")], 1).is_empty());
}
