use beamline::json::{to_json_document, value_to_json, JsonNumber, JsonValue};
use beamline::value::{Date, DateTime};
use beamline::value::Value;
use serde_json::Value as SerdeValue;

/// The same value as a `serde_json` value, to serialize it.
fn to_serde(j: &JsonValue) -> SerdeValue {
    match j {
        JsonValue::Null => SerdeValue::Null,
        JsonValue::Bool(b) => SerdeValue::Bool(*b),
        JsonValue::Number(JsonNumber::Int(i)) => SerdeValue::Number((*i).into()),
        JsonValue::Number(JsonNumber::UInt(u)) => SerdeValue::Number((*u).into()),
        JsonValue::Number(JsonNumber::Float(bits)) => {
            SerdeValue::Number(serde_json::Number::from_f64(f64::from_bits(*bits)).unwrap())
        }
        JsonValue::String(s) => SerdeValue::String(s.clone()),
        JsonValue::Array(a) => SerdeValue::Array(a.iter().map(to_serde).collect()),
        JsonValue::Object(o) => {
            let mut m = serde_json::Map::new();
            for (k, v) in o {
                m.insert(k.clone(), to_serde(v));
            }
            SerdeValue::Object(m)
        }
    }
}

fn text(s: &str) -> Value {
    Value::String(s.to_string())
}

#[test]
fn blob_coerces_to_base64() {
    let blob = Value::Blob(b"hello".to_vec());
    let json = value_to_json(&blob, true).expect("coerced blob");
    // "hello" base64-encoded round-trips back to the original bytes.
    assert_eq!(to_serde(&json), SerdeValue::String("aGVsbG8=".to_string()));
}

#[test]
fn blob_errors_without_coerce() {
    let blob = Value::Blob(b"hello".to_vec());
    let err = value_to_json(&blob, false).expect_err("blob without coerce errors");
    let msg = err.message().clone();
    assert!(msg.contains("Blob"));
    assert!(msg.contains("--coerce-unsupported"));
}

#[test]
fn special_chars_in_keys_and_strings_are_escaped() {
    // Keys and string values with characters that must be JSON-escaped:
    // double quote, backslash, tab, newline, and braces.
    let tuple = vec![
        ("a \"b\" {c}".to_string(), text("he said \"hi\"\t{x}")),
        ("back\\slash".to_string(), text("line1\nline2")),
    ];
    let json = value_to_json(&Value::Tuple(tuple), false).expect("serialize tuple");

    // Serialize through serde and confirm it round-trips to the same values,
    // which is only possible if the output is valid, properly-escaped JSON.
    let s = serde_json::to_string(&to_serde(&json)).expect("valid JSON string");
    let reparsed: SerdeValue = serde_json::from_str(&s).expect("re-parse escaped JSON");
    assert_eq!(reparsed["a \"b\" {c}"], SerdeValue::String("he said \"hi\"\t{x}".into()));
    assert_eq!(reparsed["back\\slash"], SerdeValue::String("line1\nline2".into()));
}

#[test]
fn duplicate_tuple_keys_collapse_last_wins() {
    let tuple = vec![("k".to_string(), Value::Integer(1)), ("k".to_string(), Value::Integer(2))];
    let json = value_to_json(&Value::Tuple(tuple), false).expect("serialize tuple");
    let serde = to_serde(&json);
    let obj = serde.as_object().expect("json object");
    assert_eq!(obj.len(), 1);
    assert_eq!(obj["k"], SerdeValue::Number(2.into()));
}

#[test]
fn document_holds_seed_start_and_rows() {
    let datasets = vec![("a".to_string(), vec![Value::Integer(1), Value::Null]), ("b".to_string(), vec![])];
    let doc = to_json_document(5, "2024-01-01T00:00:00Z", &datasets, false).expect("document");
    match &doc {
        JsonValue::Object(o) => {
            let keys: Vec<&str> = o.iter().map(|(k, _)| k.as_str()).collect();
            assert_eq!(keys, vec!["seed", "start", "data"]);
        }
        other => panic!("unexpected {other:?}"),
    }
    let s = serde_json::to_string(&to_serde(&doc)).expect("json");
    assert_eq!(s, r#"{"data":{"a":[1,null],"b":[]},"seed":5,"start":"2024-01-01T00:00:00Z"}"#);
}

#[test]
fn document_refuses_datetime_without_coerce() {
    let d = Value::DateTime(DateTime::Date(Date { year: 2024, month: 2, day: 29 }));
    let datasets = vec![("t".to_string(), vec![Value::Tuple(vec![("created_at".to_string(), d)])])];
    let err = to_json_document(1, "s", &datasets, false).expect_err("datetime refused");
    assert!(err.message().contains("DateTime"));
    assert!(err.message().contains("--coerce-unsupported"));
    let doc = to_json_document(1, "s", &datasets, true).expect("coerced");
    let s = serde_json::to_string(&to_serde(&doc)).expect("json");
    assert!(s.contains(r#""created_at":"2024-02-29""#));
}
