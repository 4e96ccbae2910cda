use tone_mark::config::AppConfig;
use tone_mark::json::JsonValue;
use tone_mark::library::LibraryMeta;
use tone_mark::theme::PaletteId;

fn model(v: serde_json::Value) -> JsonValue {
    match v {
        serde_json::Value::Null => JsonValue::Null,
        serde_json::Value::Bool(b) => JsonValue::Bool(b),
        serde_json::Value::Number(n) => match n.as_u64() {
            Some(u) => JsonValue::UInt(u),
            None => JsonValue::OtherNumber,
        },
        serde_json::Value::String(s) => JsonValue::Str(s),
        serde_json::Value::Array(a) => JsonValue::Array(a.into_iter().map(model).collect()),
        serde_json::Value::Object(m) => JsonValue::Object(m.into_iter().map(|(k, x)| (k, model(x))).collect()),
    }
}

fn doc(text: &str) -> JsonValue {
    model(serde_json::from_str(text).unwrap())
}

#[test]
fn accessors_read_like_value_indexing() {
    let v = doc(r#"{"b": [1, -2, 2.5, null, true, "s"], "a": {"k": "v"}}"#);
    let arr = v.get_key("b").unwrap();
    assert!(matches!(arr.get_index(0), Some(JsonValue::UInt(1))));
    assert!(matches!(arr.get_index(1), Some(JsonValue::OtherNumber)));
    assert!(arr.get_index(3).is_none());
    assert!(matches!(arr.get_index(4), Some(JsonValue::Bool(true))));
    assert_eq!(arr.get_index(5).unwrap().as_str(), Some("s"));
    assert!(arr.get_index(6).is_none());
    assert!(arr.get_key("b").is_none());
    assert_eq!(v.get_key("a").unwrap().get_key("k").unwrap().as_str(), Some("v"));
    assert!(v.get_key("zz").is_none());
    assert!(v.get_index(0).is_none());
    assert_eq!(v.get_key("a").unwrap().as_str(), None);
}

#[test]
fn parsing_text_goes_through_serde_json() {
    let m = LibraryMeta::parse(r#"{"tags": [{"name": "X", "color": "teal"}], "assignments": {"b.tsl": ["X"], "a.tsl": ["X", 3]}}"#);
    assert_eq!(m.tags.len(), 1);
    let keys: Vec<&str> = m.assignments.entries.iter().map(|(k, _)| k.as_str()).collect();
    assert_eq!(keys, vec!["a.tsl", "b.tsl"]);
    assert_eq!(m.assignments.get("a.tsl"), Some(&vec!["X".to_string()]));
    let bad = LibraryMeta::parse(r#"{"tags": [{"name": "X", "color": "teal"}]"#);
    assert_eq!(bad.tags.len(), 8);
    let c = AppConfig::parse("");
    assert!(c.library_path.is_none());
}

#[test]
fn pretty_printing_goes_through_serde_json() {
    let c = AppConfig { library_path: Some("/x".to_string()), palette: PaletteId::Pink };
    assert_eq!(c.to_json_string(), "{\n  \"library_path\": \"/x\",\n  \"palette\": \"pink\"\n}");
    let c = AppConfig { library_path: None, palette: PaletteId::Amber };
    assert_eq!(c.to_json_string(), "{\n  \"library_path\": null,\n  \"palette\": \"amber\"\n}");
}
