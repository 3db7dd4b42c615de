use server::decimal::i32_decimal;
use server::json::{array, object, quote};

#[test]
fn quote_writes_json_string_literals() {
    assert_eq!(quote("Login"), "\"Login\"");
    assert_eq!(quote(""), "\"\"");
    assert_eq!(quote("a\"b\\c"), "\"a\\\"b\\\\c\"");
    assert_eq!(quote("line\nbreak"), "\"line\\nbreak\"");
}

#[test]
fn object_frames_members_in_order() {
    let fields = vec![
        ("op".to_string(), "\"Login\"".to_string()),
        ("n".to_string(), "1".to_string()),
    ];
    assert_eq!(object(&fields), "{\"op\":\"Login\",\"n\":1}");
    assert_eq!(object(&Vec::new()), "{}");
}

#[test]
fn array_frames_items_in_order() {
    assert_eq!(array(&Vec::new()), "[]");
    assert_eq!(array(&vec!["1".to_string()]), "[1]");
    assert_eq!(array(&vec!["{}".to_string(), "2".to_string(), "\"x\"".to_string()]), "[{},2,\"x\"]");
}

#[test]
fn decimal_text_of_integers() {
    assert_eq!(i32_decimal(0), "0");
    assert_eq!(i32_decimal(7), "7");
    assert_eq!(i32_decimal(10), "10");
    assert_eq!(i32_decimal(1234567), "1234567");
    assert_eq!(i32_decimal(-5), "-5");
    assert_eq!(i32_decimal(i32::MAX), "2147483647");
    assert_eq!(i32_decimal(i32::MIN), "-2147483648");
    for n in [-1001, -10, -1, 1, 9, 99, 100, 65535] {
        assert_eq!(i32_decimal(n), format!("{}", n));
    }
}

/// How a character is written inside a JSON string, one case per rule.
fn escaped(c: char) -> String {
    match c {
        '"' => "\\\"".to_string(),
        '\\' => "\\\\".to_string(),
        '\u{8}' => "\\b".to_string(),
        '\t' => "\\t".to_string(),
        '\n' => "\\n".to_string(),
        '\u{c}' => "\\f".to_string(),
        '\r' => "\\r".to_string(),
        c if (c as u32) < 0x20 => format!("\\u00{:02x}", c as u32),
        c => c.to_string(),
    }
}

#[test]
fn quote_escapes_each_character_by_the_rules() {
    let mut chars: Vec<char> = (0u32..0x80).map(|n| char::from_u32(n).unwrap()).collect();
    chars.extend(['é', '\u{2028}', '中', '😀', '\u{7f}']);
    for c in chars {
        let text = c.to_string();
        assert_eq!(quote(&text), format!("\"{}\"", escaped(c)));
    }
    assert_eq!(quote("\u{1}"), "\"\\u0001\"");
    assert_eq!(quote("\u{1f}"), "\"\\u001f\"");
    assert_eq!(quote("a/b"), "\"a/b\"");
    assert_eq!(quote("x\u{8}y\u{c}z\r"), "\"x\\by\\fz\\r\"");
}
