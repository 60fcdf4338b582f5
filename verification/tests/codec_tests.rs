use appmesh::codec::{decode_value, encode_value, str_chars};
use appmesh::text::{i64_to_string, parse_i32, parse_u64, str_eq, u64_to_string};
use appmesh::value::{Entry, PortValue};

fn roundtrip(v: &PortValue) {
    let text = encode_value(v);
    let back = decode_value(text.as_str()).expect("wire text must decode");
    assert_eq!(encode_value(&back), text);
}

#[test]
fn encode_null_and_bools() {
    assert_eq!(encode_value(&PortValue::Null), "null");
    assert_eq!(encode_value(&PortValue::Bool(true)), "true");
    assert_eq!(encode_value(&PortValue::Bool(false)), "false");
}

#[test]
fn encode_integers_exactly() {
    assert_eq!(encode_value(&PortValue::Int(0)), "0");
    assert_eq!(encode_value(&PortValue::Int(7)), "7");
    assert_eq!(encode_value(&PortValue::Int(-42)), "-42");
    assert_eq!(encode_value(&PortValue::Int(i64::MAX)), "9223372036854775807");
    assert_eq!(encode_value(&PortValue::Int(i64::MIN)), "-9223372036854775808");
}

#[test]
fn encode_strings_with_escapes() {
    assert_eq!(encode_value(&PortValue::Str(String::from(""))), "\"\"");
    assert_eq!(encode_value(&PortValue::Str(String::from("plain"))), "\"plain\"");
    assert_eq!(
        encode_value(&PortValue::Str(String::from("a\"b\\c"))),
        "\"a\\\"b\\\\c\""
    );
    assert_eq!(
        encode_value(&PortValue::Str(String::from("line\nbreak\ttab\rret"))),
        "\"line\\nbreak\\ttab\\rret\""
    );
    assert_eq!(
        encode_value(&PortValue::Str(String::from("\u{8}\u{c}\u{1}\u{1f}"))),
        "\"\\b\\f\\u0001\\u001f\""
    );
}

#[test]
fn roundtrip_strings() {
    roundtrip(&PortValue::Str(String::from("")));
    roundtrip(&PortValue::Str(String::from("ordinary text")));
    roundtrip(&PortValue::Str(String::from("quotes \" and \\ slashes")));
    roundtrip(&PortValue::Str(String::from("control \u{1} \u{1f} \u{8} \u{c}")));
    roundtrip(&PortValue::Str(String::from("unicode \u{e9}\u{4e2d}\u{1f600}")));
}

#[test]
fn roundtrip_integers_full_range() {
    for v in [0i64, 1, -1, 42, -42, i64::MAX, i64::MIN, i64::MAX - 1, i64::MIN + 1] {
        roundtrip(&PortValue::Int(v));
    }
}

#[test]
fn roundtrip_lists_and_objects() {
    roundtrip(&PortValue::List(vec![]));
    roundtrip(&PortValue::List(vec![
        PortValue::Int(1),
        PortValue::Str(String::from("two")),
        PortValue::Bool(false),
        PortValue::Null,
    ]));
    roundtrip(&PortValue::Object(vec![]));
    roundtrip(&PortValue::Object(vec![
        Entry { key: String::from("a"), value: PortValue::Int(1) },
        Entry {
            key: String::from("nested"),
            value: PortValue::List(vec![PortValue::Object(vec![Entry {
                key: String::from("deep"),
                value: PortValue::Str(String::from("yes")),
            }])]),
        },
    ]));
}

#[test]
fn decode_exact_shapes() {
    let v = decode_value("[1,\"x\",true,null]").expect("list decodes");
    assert_eq!(encode_value(&v), "[1,\"x\",true,null]");
    let v = decode_value("{\"k\":\"v\"}").expect("object decodes");
    assert_eq!(encode_value(&v), "{\"k\":\"v\"}");
}

#[test]
fn decode_rejects_malformed() {
    assert!(decode_value("").is_none());
    assert!(decode_value("nul").is_none());
    assert!(decode_value("truex").is_none());
    assert!(decode_value("[1,").is_none());
    assert!(decode_value("{\"k\":}").is_none());
    assert!(decode_value("\"open").is_none());
    assert!(decode_value("12 34").is_none());
    assert!(decode_value("9223372036854775808").is_none());
    assert!(decode_value("-9223372036854775809").is_none());
}

#[test]
fn decode_accepts_escapes() {
    let v = decode_value("\"a\\u0041\\n\\t\\\\\\\"\\/\"").expect("escapes decode");
    match &v {
        PortValue::Str(s) => assert_eq!(s, "aA\n\t\\\"/"),
        _ => panic!("expected a string"),
    }
}

#[test]
fn number_text_helpers() {
    assert_eq!(u64_to_string(0), "0");
    assert_eq!(u64_to_string(90210), "90210");
    assert_eq!(i64_to_string(-7), "-7");
    assert_eq!(i64_to_string(i64::MIN), "-9223372036854775808");
}

#[test]
fn parse_helpers() {
    assert_eq!(parse_u64("0"), Some(0));
    assert_eq!(parse_u64("+15"), Some(15));
    assert_eq!(parse_u64("18446744073709551615"), Some(u64::MAX));
    assert_eq!(parse_u64("18446744073709551616"), None);
    assert_eq!(parse_u64(""), None);
    assert_eq!(parse_u64("12a"), None);
    assert_eq!(parse_u64("-3"), None);
    assert_eq!(parse_i32("-1"), Some(-1));
    assert_eq!(parse_i32("2147483647"), Some(i32::MAX));
    assert_eq!(parse_i32("-2147483648"), Some(i32::MIN));
    assert_eq!(parse_i32("2147483648"), None);
    assert_eq!(parse_i32("x"), None);
    assert_eq!(parse_i32("-+123"), None);
    assert_eq!(parse_i32("+15"), Some(15));
}

#[test]
fn string_helpers() {
    assert!(str_eq("same", "same"));
    assert!(!str_eq("same", "sam\u{e9}"));
    assert!(!str_eq("", "a"));
    let chars = str_chars("ab\u{4e2d}");
    assert_eq!(chars, vec!['a', 'b', '\u{4e2d}']);
}

#[test]
fn dup_preserves_trees() {
    let v = PortValue::Object(vec![Entry {
        key: String::from("xs"),
        value: PortValue::List(vec![PortValue::Int(3), PortValue::Str(String::from("y"))]),
    }]);
    let copy = v.dup();
    assert_eq!(encode_value(&copy), encode_value(&v));
}
