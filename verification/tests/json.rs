//! JSON as plain data, against the JSON library.

use dxlink::json::{JsonNumber, JsonValue};

const TEXTS: [&str; 12] = [
    "null",
    "true",
    "[]",
    "{}",
    "[1,-2,3.5,1e300,-0.0,18446744073709551615,-9223372036854775808]",
    r#"{"b":[{"a":null}],"a":"x"}"#,
    r#""quote \" backslash \\ slash / tab \t line \n bell \u0007 \u00e9 \ud83d\ude00""#,
    "[[[[[]]]]]",
    r#"{"":"","\u0000":"\u001f"}"#,
    "[0.1,0.30000000000000004,123456789.123456789,5e-324]",
    r#"{"nested":{"deep":{"er":[1,{"x":[true,false]}]}}}"#,
    "[1.0,100.0,-1.5e-7]",
];

#[test]
fn a_value_is_written_as_the_json_library_writes_it() {
    for text in TEXTS {
        let library: serde_json::Value = serde_json::from_str(text).expect("JSON");
        let value = JsonValue::parse(text).expect("JSON");
        assert_eq!(value.render(), library.to_string(), "{text}");
        assert_eq!(value.copied().render(), library.to_string(), "{text}");
        assert_eq!(
            JsonValue::from_serde(library.clone()).render(),
            library.to_string(),
            "{text}"
        );
    }
}

#[test]
fn a_text_that_is_no_json_is_refused_in_the_words_of_the_library() {
    for text in ["", "nope", "[1,", "{\"a\"}", "1 2"] {
        let words = serde_json::from_str::<serde_json::Value>(text)
            .expect_err("no JSON")
            .to_string();
        assert_eq!(JsonValue::parse(text).map(|_| ()).unwrap_err(), words);
    }
}

#[test]
fn fields_and_kinds_are_told_apart() {
    let text = r#"{"t":"x","n":-4,"u":18446744073709551615,"d":1.5,"b":true,"z":null}"#;
    let value = JsonValue::parse(text).expect("JSON");
    assert_eq!(value.get("t").and_then(|v| v.as_str()), Some("x"));
    assert_eq!(value.get("n").and_then(|v| v.as_i64()), Some(-4));
    assert_eq!(value.get("n").and_then(|v| v.as_u64()), None);
    assert_eq!(value.get("u").and_then(|v| v.as_u64()), Some(u64::MAX));
    assert_eq!(value.get("u").and_then(|v| v.as_i64()), None);
    assert_eq!(value.get("d").and_then(|v| v.as_i64()), None);
    assert_eq!(value.get("b").and_then(|v| v.as_bool()), Some(true));
    assert_eq!(value.get("z").and_then(|v| v.as_bool()), None);
    assert!(value.get("absent").is_none());
    assert_eq!(value.text_field("t", "other"), "x");
    assert_eq!(value.text_field("n", "other"), "other");
    assert_eq!(value.text_field("absent", "other"), "other");
    assert!(JsonValue::Null.get("t").is_none());
}

#[test]
fn whole_numbers_are_written_in_full() {
    assert_eq!(JsonNumber::Signed(i64::MIN).render(), i64::MIN.to_string());
    assert_eq!(JsonNumber::Signed(-1).render(), "-1");
    assert_eq!(JsonNumber::Signed(7).render(), "7");
    assert_eq!(JsonNumber::Unsigned(u64::MAX).render(), u64::MAX.to_string());
    assert_eq!(JsonNumber::Unsigned(0).render(), "0");
}

#[test]
fn a_string_is_written_with_its_escapes() {
    let text = "a\"b\\c\u{8}\t\n\u{c}\r\u{0}\u{1f}\u{7f}/\u{e9}\u{1f600}";
    let value = JsonValue::Text(text.to_string());
    assert_eq!(
        value.render(),
        "\"a\\\"b\\\\c\\b\\t\\n\\f\\r\\u0000\\u001f\u{7f}/\u{e9}\u{1f600}\""
    );
    for n in 0..0x100u32 {
        let one = char::from_u32(n).expect("a character").to_string();
        assert_eq!(
            JsonValue::Text(one.clone()).render(),
            serde_json::Value::from(one).to_string()
        );
    }
}
