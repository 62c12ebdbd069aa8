use rust_extensions::date_time::DateTimeAsMicroseconds;
use rust_extensions::wrapped_type::{extract_type, ExtractedType, WrappedType};

#[test]
fn a_string_inside_a_wrapper_gets_string_accessors() {
    let tp = ExtractedType { tp_str: "Arc<String>" };
    let (wrapped, in_wrapper) = tp.get_type_and_wrapper();
    assert!(wrapped.is_string());
    assert!(in_wrapper);
    assert_eq!(tp.as_value_fn_name(), None);
    assert!(tp.converts_from_string());
}

#[test]
fn a_plain_type_gets_an_accessor_named_after_it() {
    let tp = ExtractedType { tp_str: "u64" };
    let (wrapped, in_wrapper) = tp.get_type_and_wrapper();
    assert!(matches!(wrapped, WrappedType::Other("u64")));
    assert!(!in_wrapper);
    assert_eq!(tp.as_value_fn_name(), Some("as_u64".to_string()));
    assert!(!tp.converts_from_string());
}

#[test]
fn a_bare_string_gets_as_string() {
    let tp = ExtractedType { tp_str: "String" };
    assert_eq!(tp.as_value_fn_name(), Some("as_string".to_string()));
    assert!(!tp.converts_from_string());
}

#[test]
fn the_wrapped_type_is_trimmed() {
    let tp = ExtractedType { tp_str: "Arc< u32 >" };
    let (wrapped, in_wrapper) = tp.get_type_and_wrapper();
    assert_eq!(wrapped.as_str(), "u32");
    assert!(in_wrapper);
    assert_eq!(tp.as_value_fn_name(), Some("as_u32".to_string()));
}

#[test]
fn extract_type_takes_the_text_in_parentheses() {
    assert_eq!(extract_type("pub struct MyId(String);").tp_str, "String");
    assert_eq!(extract_type("struct A( Arc<String> )").tp_str, "Arc<String>");
}

#[test]
fn json_value_tokens_ignore_surrounding_white_space() {
    let value = DateTimeAsMicroseconds::from_json_value_str(" \t\"1619371803\"\n").unwrap();
    assert_eq!(value.unix_microseconds, 1_619_371_803_000_000);
    assert!(DateTimeAsMicroseconds::from_json_value_str("  \u{3000}null ").is_none());
}
