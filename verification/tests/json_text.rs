use papra_vector_search::json::JsonValue;
use serde_json::{Number, Value};

fn library_value(value: &Value) -> JsonValue {
    match value {
        Value::Null => JsonValue::Null,
        Value::Bool(b) => JsonValue::Bool(*b),
        Value::Number(n) => JsonValue::Number(n.to_string()),
        Value::String(s) => JsonValue::String(s.clone()),
        Value::Array(items) => JsonValue::Array(items.iter().map(library_value).collect()),
        Value::Object(fields) => {
            JsonValue::Object(fields.iter().map(|(k, v)| (k.clone(), library_value(v))).collect())
        }
    }
}

#[test]
fn writes_compact_json_like_serde_json() {
    let mut inner = serde_json::Map::new();
    inner.insert("b".into(), Value::Bool(false));
    inner.insert("a".into(), Value::Null);
    let mut outer = serde_json::Map::new();
    outer.insert("quote\"and\\slash/".into(), Value::String("line\nfeed\ttab\r\u{8}\u{c}\u{1}\u{1f} é ✓".into()));
    outer.insert("n".into(), Value::Number(Number::from(-12)));
    outer.insert("f".into(), Value::Number(Number::from_f64(1.5).unwrap()));
    outer.insert("list".into(), Value::Array(vec![Value::Bool(true), Value::Object(inner), Value::Array(vec![])]));
    outer.insert("empty".into(), Value::Object(serde_json::Map::new()));
    let value = Value::Object(outer);
    assert_eq!(library_value(&value).to_json_text(), value.to_string());
}

#[test]
fn writes_stored_tags() {
    let tags = JsonValue::Array(vec![JsonValue::String("new".into())]);
    assert_eq!(tags.to_json_text(), r#"["new"]"#);
    assert_eq!(JsonValue::Object(vec![]).to_json_text(), "{}");
    assert_eq!(JsonValue::String("\u{0}".into()).to_json_text(), "\"\\u0000\"");
}
