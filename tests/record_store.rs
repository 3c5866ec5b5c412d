use record_store::{decode_record, encode_record, finish_load, greet, DecodeKind, Record, StoreError};

fn rec(name: &str, value: i32) -> Record {
    Record::new(name.to_string(), value)
}

fn decoded(text: &str) -> Option<(String, i32)> {
    match decode_record(text) {
        Ok(r) => Some((r.name, r.value)),
        Err(_) => None,
    }
}

#[test]
fn greet_world() {
    assert_eq!(greet("World"), "Hello, World! You've been greeted from Rust!");
}

#[test]
fn greet_empty_name() {
    assert_eq!(greet(""), "Hello, ! You've been greeted from Rust!");
}

#[test]
fn encode_widget_is_pretty_json() {
    assert_eq!(
        encode_record(&rec("widget", 42)),
        "{\n  \"name\": \"widget\",\n  \"value\": 42\n}"
    );
}

#[test]
fn encode_negative_and_extreme_values() {
    assert_eq!(encode_record(&rec("a", -7)), "{\n  \"name\": \"a\",\n  \"value\": -7\n}");
    assert_eq!(encode_record(&rec("", 0)), "{\n  \"name\": \"\",\n  \"value\": 0\n}");
    assert_eq!(
        encode_record(&rec("m", i32::MIN)),
        "{\n  \"name\": \"m\",\n  \"value\": -2147483648\n}"
    );
    assert_eq!(
        encode_record(&rec("m", i32::MAX)),
        "{\n  \"name\": \"m\",\n  \"value\": 2147483647\n}"
    );
}

#[test]
fn encode_escapes_name() {
    let name = "q\"b\\s\n\t\u{1}\u{7f}é";
    let text = encode_record(&rec(name, 1));
    assert_eq!(
        text,
        "{\n  \"name\": \"q\\\"b\\\\s\\n\\t\\u0001\u{7f}é\",\n  \"value\": 1\n}"
    );
    let quoted = serde_json::to_string(name).unwrap();
    assert_eq!(text, format!("{{\n  \"name\": {},\n  \"value\": 1\n}}", quoted));
}

#[test]
fn encode_matches_serde_json_value_layout() {
    let mut map = serde_json::Map::new();
    map.insert("name".to_string(), serde_json::Value::String("x\u{8}y".to_string()));
    map.insert("value".to_string(), serde_json::Value::from(-12));
    let expected = serde_json::to_string_pretty(&serde_json::Value::Object(map)).unwrap();
    assert_eq!(encode_record(&rec("x\u{8}y", -12)), expected);
}

#[test]
fn round_trip_widget() {
    let text = encode_record(&rec("widget", 42));
    assert_eq!(decoded(&text), Some(("widget".to_string(), 42)));
}

#[test]
fn round_trip_awkward_records() {
    let names = ["", "plain", "q\"\\/", "\u{0}\u{1f}\u{8}\u{c}\r\n\t", "ü😀", "  spaced  "];
    let values = [0, 1, -1, 10, -10, i32::MAX, i32::MIN, 1000000];
    for name in names.iter() {
        for value in values.iter() {
            let text = encode_record(&rec(name, *value));
            assert_eq!(decoded(&text), Some((name.to_string(), *value)));
        }
    }
}

#[test]
fn save_twice_gives_same_text() {
    let a = encode_record(&rec("same", 5));
    let b = encode_record(&rec("same", 5));
    assert_eq!(a, b);
}

#[test]
fn overwrite_leaves_second_record() {
    let mut file = encode_record(&rec("first", 1));
    assert_eq!(decoded(&file), Some(("first".to_string(), 1)));
    file = encode_record(&rec("second", 2));
    assert_eq!(decoded(&file), Some(("second".to_string(), 2)));
}

#[test]
fn decode_compact_and_reordered() {
    assert_eq!(decoded("{\"name\":\"a\",\"value\":1}"), Some(("a".to_string(), 1)));
    assert_eq!(decoded("{\"value\":-3,\"name\":\"b\"}"), Some(("b".to_string(), -3)));
    assert_eq!(
        decoded(" \r\n\t{ \"name\" : \"c\" , \"value\" : 0 } \n"),
        Some(("c".to_string(), 0))
    );
    assert_eq!(decoded("{\"name\":\"d\",\"value\":-0}"), Some(("d".to_string(), 0)));
}

#[test]
fn decode_string_escapes() {
    assert_eq!(
        decoded("{\"name\":\"\\u0041\\/\\b\\f\\n\\r\\t\\\"\\\\\",\"value\":1}"),
        Some(("A/\u{8}\u{c}\n\r\t\"\\".to_string(), 1))
    );
    assert_eq!(
        decoded("{\"name\":\"\\ud83d\\ude00\\u00E9\",\"value\":1}"),
        Some(("😀é".to_string(), 1))
    );
}

#[test]
fn decode_agrees_with_serde_json_on_escapes() {
    let text = "{\"name\":\"\\ud83d\\ude00\\u00e9\\u001f x\",\"value\":7}";
    let v: serde_json::Value = serde_json::from_str(text).unwrap();
    let name = v.get("name").unwrap().as_str().unwrap().to_string();
    assert_eq!(decoded(text), Some((name, 7)));
}

#[test]
fn decode_rejects_bad_strings() {
    assert_eq!(decoded("{\"name\":\"\\ud83d\",\"value\":1}"), None);
    assert_eq!(decoded("{\"name\":\"\\ude00\",\"value\":1}"), None);
    assert_eq!(decoded("{\"name\":\"\\ud83d\\u0041\",\"value\":1}"), None);
    assert_eq!(decoded("{\"name\":\"\\x\",\"value\":1}"), None);
    assert_eq!(decoded("{\"name\":\"\\u00g1\",\"value\":1}"), None);
    assert_eq!(decoded("{\"name\":\"a\nb\",\"value\":1}"), None);
    assert_eq!(decoded("{\"name\":\"open,\"value\":1}"), None);
}

#[test]
fn decode_integer_limits() {
    assert_eq!(decoded("{\"name\":\"a\",\"value\":2147483647}"), Some(("a".to_string(), i32::MAX)));
    assert_eq!(
        decoded("{\"name\":\"a\",\"value\":-2147483648}"),
        Some(("a".to_string(), i32::MIN))
    );
    assert_eq!(decoded("{\"name\":\"a\",\"value\":2147483648}"), None);
    assert_eq!(decoded("{\"name\":\"a\",\"value\":-2147483649}"), None);
    assert_eq!(decoded("{\"name\":\"a\",\"value\":99999999999999999999999}"), None);
}

#[test]
fn decode_rejects_bad_numbers() {
    assert_eq!(decoded("{\"name\":\"a\",\"value\":01}"), None);
    assert_eq!(decoded("{\"name\":\"a\",\"value\":1.5}"), None);
    assert_eq!(decoded("{\"name\":\"a\",\"value\":1e3}"), None);
    assert_eq!(decoded("{\"name\":\"a\",\"value\":-}"), None);
    assert_eq!(decoded("{\"name\":\"a\",\"value\":\"1\"}"), None);
    assert_eq!(decoded("{\"name\":1,\"value\":1}"), None);
}

#[test]
fn decode_rejects_wrong_shape() {
    assert_eq!(decoded(""), None);
    assert_eq!(decoded("{}"), None);
    assert_eq!(decoded("{\"name\":\"a\"}"), None);
    assert_eq!(decoded("{\"value\":1}"), None);
    assert_eq!(decoded("{\"name\":\"a\",\"name\":\"b\"}"), None);
    assert_eq!(decoded("{\"value\":1,\"value\":2}"), None);
    assert_eq!(decoded("{\"name\":\"a\",\"value\":1,}"), None);
    assert_eq!(decoded("{\"nam\":\"a\",\"value\":1}"), None);
    assert_eq!(decoded("{\"name\":\"a\",\"value\":1} x"), None);
    assert_eq!(decoded("{\"name\":\"a\" \"value\":1}"), None);
    assert_eq!(decoded("[\"a\",1]"), None);
}

#[test]
fn load_missing_file_is_io_error() {
    let err = "No such file or directory (os error 2)".to_string();
    match finish_load(Err(err.clone())) {
        Err(e) => {
            assert!(e.is_io());
            assert!(!e.is_decode());
            assert_eq!(e.message(), err);
        }
        Ok(_) => panic!("a failed read must not give a record"),
    }
}

#[test]
fn load_not_json_is_decode_error() {
    match finish_load(Ok("not json".to_string())) {
        Err(e) => {
            assert!(e.is_decode());
            assert!(matches!(
                e,
                StoreError::Decode(ref d) if d.kind == DecodeKind::NotAnObject && d.at == 0
            ));
            assert_eq!(
                e.message(),
                "the text is not a record: expected a JSON object at character 0"
            );
        }
        Ok(_) => panic!("text that is not JSON must not give a record"),
    }
}

#[test]
fn load_saved_text() {
    let text = encode_record(&rec("widget", 42));
    match finish_load(Ok(text)) {
        Ok(r) => {
            assert_eq!(r.name, "widget");
            assert_eq!(r.value, 42);
        }
        Err(_) => panic!("saved text must load"),
    }
}

#[test]
fn decode_passes_over_other_members() {
    assert_eq!(decoded("{\"x\":1,\"name\":\"a\",\"value\":1}"), Some(("a".to_string(), 1)));
    assert_eq!(
        decoded("{\"name\":\"a\",\"value\":1,\"extra\":2}"),
        Some(("a".to_string(), 1))
    );
    assert_eq!(
        decoded(
            "{ \"meta\" : { \"tags\": [1, -2.5e3, \"s\\\"\", true, false, null, [], {}] , \"k\": {\"value\": 9} },\n  \"name\": \"n\", \"list\": [[0.5], {\"a\": [null]}], \"value\": 3 }"
        ),
        Some(("n".to_string(), 3))
    );
    assert_eq!(
        decoded("{\"value\":4,\"n\":1E+2,\"name\":\"b\",\"z\":0.0e-1}"),
        Some(("b".to_string(), 4))
    );
}

#[test]
fn decode_rejects_bad_other_members() {
    assert_eq!(decoded("{\"x\":,\"name\":\"a\",\"value\":1}"), None);
    assert_eq!(decoded("{\"x\":[1,],\"name\":\"a\",\"value\":1}"), None);
    assert_eq!(decoded("{\"x\":{\"a\" 1},\"name\":\"a\",\"value\":1}"), None);
    assert_eq!(decoded("{\"x\":[1},\"name\":\"a\",\"value\":1}"), None);
    assert_eq!(decoded("{\"x\":tru,\"name\":\"a\",\"value\":1}"), None);
    assert_eq!(decoded("{\"x\":01,\"name\":\"a\",\"value\":1}"), None);
    assert_eq!(decoded("{\"x\":1.,\"name\":\"a\",\"value\":1}"), None);
    assert_eq!(decoded("{\"x\":1e,\"name\":\"a\",\"value\":1}"), None);
    assert_eq!(decoded("{\"x\":{1:2},\"name\":\"a\",\"value\":1}"), None);
    assert_eq!(decoded("{\"x\":1,\"name\":\"a\",\"value\":1,\"name\":\"b\"}"), None);
    assert_eq!(decoded("{\"x\":1,\"y\":2}"), None);
}

fn failure(text: &str) -> Option<(DecodeKind, usize)> {
    match decode_record(text) {
        Err(StoreError::Decode(d)) => Some((d.kind, d.at)),
        _ => None,
    }
}

#[test]
fn decode_failures_name_cause_and_place() {
    assert_eq!(failure("  x"), Some((DecodeKind::NotAnObject, 2)));
    assert_eq!(failure(""), Some((DecodeKind::NotAnObject, 0)));
    assert_eq!(failure("{}"), Some((DecodeKind::BadMember, 1)));
    assert_eq!(failure("{\"name\":1,\"value\":1}"), Some((DecodeKind::BadMember, 1)));
    assert_eq!(
        failure("{\"name\":\"a\", \"value\":1.5}"),
        Some((DecodeKind::ExpectedCommaOrEnd, 22))
    );
    assert_eq!(failure("{\"name\":\"a\", \"value\":\"1\"}"), Some((DecodeKind::BadMember, 13)));
    assert_eq!(
        failure("{\"name\":\"a\",\"name\":\"b\",\"value\":1}"),
        Some((DecodeKind::RepeatedName, 12))
    );
    assert_eq!(failure("{\"value\":1,\"value\":2}"), Some((DecodeKind::RepeatedValue, 11)));
    assert_eq!(failure("{\"name\":\"a\" \"value\":1}"), Some((DecodeKind::ExpectedCommaOrEnd, 12)));
    assert_eq!(failure("{\"name\":\"a\",\"value\":1} x"), Some((DecodeKind::TrailingText, 23)));
    assert_eq!(failure("{\"value\":1}"), Some((DecodeKind::MissingName, 10)));
    assert_eq!(failure("{\"name\":\"a\",\"x\":[]}"), Some((DecodeKind::MissingValue, 18)));
}

#[test]
fn decode_failure_message() {
    match finish_load(Ok("{\"name\":\"a\",\"name\":\"b\",\"value\":1}".to_string())) {
        Err(e) => assert_eq!(
            e.message(),
            "the text is not a record: the member \"name\" is repeated at character 12"
        ),
        Ok(_) => panic!("a repeated member must not give a record"),
    }
    match finish_load(Ok("{\"value\":1}".to_string())) {
        Err(e) => assert_eq!(
            e.message(),
            "the text is not a record: the member \"name\" is missing at character 10"
        ),
        Ok(_) => panic!("a missing member must not give a record"),
    }
}
