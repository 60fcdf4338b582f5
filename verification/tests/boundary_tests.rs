use appmesh::args::ArgMap;
use appmesh::boundary::{HandleTable, decode_args, encode_result, status_code};
use appmesh::port::{PortError, PortResult};
use appmesh::value::PortValue;

#[test]
fn ok_results_wrap_under_the_ok_key() {
    let r: PortResult = Ok(PortValue::Str(String::from("ok-value")));
    assert_eq!(encode_result(&r), "{\"ok\":\"ok-value\"}");
    let r: PortResult = Ok(PortValue::Int(5));
    assert_eq!(encode_result(&r), "{\"ok\":5}");
}

#[test]
fn errors_wrap_under_the_error_key() {
    let r: PortResult = Err(PortError { code: -1, message: String::from("boom") });
    assert_eq!(encode_result(&r), "{\"error\":{\"code\":-1,\"message\":\"boom\"}}");
}

#[test]
fn args_decode_to_a_string_map() {
    let m = decode_args("{\"text\":\"hello\",\"n\":\"5\"}");
    assert_eq!(m.get("text").map(|s| s.as_str()), Some("hello"));
    assert_eq!(m.get("n").map(|s| s.as_str()), Some("5"));
    assert!(m.get("absent").is_none());
}

#[test]
fn later_argument_bindings_win() {
    let m = decode_args("{\"k\":\"first\",\"k\":\"second\"}");
    assert_eq!(m.get("k").map(|s| s.as_str()), Some("second"));
}

#[test]
fn bad_argument_text_decodes_to_empty() {
    assert!(decode_args("").get("k").is_none());
    assert!(decode_args("not json").get("k").is_none());
    assert!(decode_args("[1,2]").get("k").is_none());
    assert!(decode_args("{\"k\":5}").get("k").is_none());
    assert!(decode_args("\"just a string\"").get("k").is_none());
}

#[test]
fn argmap_insert_and_lookup() {
    let mut m = ArgMap::new();
    assert!(m.get("k").is_none());
    m.insert(String::from("k"), String::from("v1"));
    m.insert(String::from("other"), String::from("x"));
    m.insert(String::from("k"), String::from("v2"));
    assert_eq!(m.get("k").map(|s| s.as_str()), Some("v2"));
    assert_eq!(m.get("other").map(|s| s.as_str()), Some("x"));
    assert!(m.contains("k"));
    assert!(!m.contains("missing"));
}

#[test]
fn status_codes_distinguish_absence_from_failure() {
    assert_eq!(status_code(false, false), -2);
    assert_eq!(status_code(false, true), -2);
    assert_eq!(status_code(true, false), -1);
    assert_eq!(status_code(true, true), 0);
}

#[test]
fn free_of_the_null_handle_is_a_no_op() {
    let mut t: HandleTable<String> = HandleTable::new();
    t.free(0);
    let h = t.open(String::from("x"));
    assert_ne!(h, 0);
    t.free(0);
    assert_eq!(t.take(h), Some(String::from("x")));
}

#[test]
fn freed_handles_stay_dead() {
    let mut t: HandleTable<u32> = HandleTable::new();
    let h = t.open(9);
    t.free(h);
    assert_eq!(t.take(h), None);
    t.free(h);
    assert_eq!(t.take(h), None);
    t.free(12345);
}

#[test]
fn take_and_restore_round_a_handle() {
    let mut t: HandleTable<u32> = HandleTable::new();
    let h = t.open(7);
    let v = t.take(h).expect("live handle yields its object");
    assert_eq!(v, 7);
    assert_eq!(t.take(h), None);
    t.restore(h, v + 1);
    assert_eq!(t.take(h), Some(8));
}

#[test]
fn error_display_text() {
    let e = PortError { code: -1, message: String::from("boom") };
    assert_eq!(e.display_string(), "port error -1: boom");
}
