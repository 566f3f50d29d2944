use nu_plugin_http_serve::datum::{json_bytes, text_or_empty, value_to_bytes, value_to_json, Datum};
use nu_plugin_http_serve::text::{decimal_text, signed_decimal_text};

fn text(s: &str) -> Datum {
    Datum::Text(s.to_string())
}

fn record(fields: Vec<(&str, Datum)>) -> Datum {
    Datum::Record(fields.into_iter().map(|(k, v)| (k.to_string(), v)).collect())
}

fn float(value: f64) -> Datum {
    Datum::Float { text: value.to_string(), json: serde_json::Value::from(value) }
}

#[test]
fn decimal_numerals() {
    assert_eq!(decimal_text(0), "0");
    assert_eq!(decimal_text(7), "7");
    assert_eq!(decimal_text(10), "10");
    assert_eq!(decimal_text(65535), "65535");
    assert_eq!(decimal_text(u64::MAX), "18446744073709551615");
    assert_eq!(signed_decimal_text(0), "0");
    assert_eq!(signed_decimal_text(-1), "-1");
    assert_eq!(signed_decimal_text(42), "42");
    assert_eq!(signed_decimal_text(i64::MAX), "9223372036854775807");
    assert_eq!(signed_decimal_text(i64::MIN), "-9223372036854775808");
    for i in [-1000i64, -999, -10, -9, 9, 10, 99, 100, 12345678901] {
        assert_eq!(signed_decimal_text(i), i.to_string());
    }
}

#[test]
fn scalar_bytes() {
    assert_eq!(value_to_bytes(Datum::Nothing), Vec::<u8>::new());
    assert_eq!(value_to_bytes(text("Hello, World!")), b"Hello, World!".to_vec());
    assert_eq!(value_to_bytes(text("héllo ✓")), "héllo ✓".as_bytes().to_vec());
    assert_eq!(value_to_bytes(Datum::Int(-42)), b"-42".to_vec());
    assert_eq!(value_to_bytes(Datum::Bool(true)), b"true".to_vec());
    assert_eq!(value_to_bytes(Datum::Bool(false)), b"false".to_vec());
    assert_eq!(value_to_bytes(float(1.5)), b"1.5".to_vec());
    assert_eq!(
        value_to_bytes(Datum::Binary { bytes: vec![0, 159, 255], debug: "bin".to_string() }),
        vec![0, 159, 255]
    );
    assert_eq!(value_to_bytes(Datum::Other("2024-01-01".to_string())), b"2024-01-01".to_vec());
}

#[test]
fn record_bytes_are_json_in_field_order() {
    let value = record(vec![("status", text("ok")), ("method", text("GET"))]);
    assert_eq!(value_to_bytes(value), br#"{"status":"ok","method":"GET"}"#.to_vec());
    let value = record(vec![("z", Datum::Int(1)), ("a", Datum::Int(2)), ("m", Datum::Int(3))]);
    assert_eq!(value_to_bytes(value), br#"{"z":1,"a":2,"m":3}"#.to_vec());
}

#[test]
fn list_bytes_are_json() {
    let value = Datum::List(vec![Datum::Int(1), text("a\"b"), Datum::Nothing, Datum::Bool(true)]);
    assert_eq!(value_to_bytes(value), br#"[1,"a\"b",null,true]"#.to_vec());
    assert_eq!(value_to_bytes(Datum::List(vec![])), b"[]".to_vec());
    assert_eq!(value_to_bytes(Datum::Record(vec![])), b"{}".to_vec());
}

#[test]
fn nested_values_become_nested_json() {
    let value = record(vec![
        ("name", text("x")),
        ("tags", Datum::List(vec![text("a"), text("b")])),
        ("inner", record(vec![("n", Datum::Int(-7)), ("f", float(2.5))])),
        ("raw", Datum::Binary { bytes: vec![1, 2], debug: "Binary([1, 2])".to_string() }),
        ("other", Datum::Other("1day".to_string())),
    ]);
    assert_eq!(
        value_to_bytes(value),
        br#"{"name":"x","tags":["a","b"],"inner":{"n":-7,"f":2.5},"raw":"Binary([1, 2])","other":"1day"}"#
            .to_vec()
    );
}

#[test]
fn repeated_field_keeps_place_and_takes_last_value() {
    let value = record(vec![("a", Datum::Int(1)), ("b", Datum::Int(2)), ("a", Datum::Int(3))]);
    assert_eq!(value_to_bytes(value), br#"{"a":3,"b":2}"#.to_vec());
}

#[test]
fn json_value_matches_serde_json() {
    let value = record(vec![("k", Datum::List(vec![Datum::Int(1), Datum::Nothing]))]);
    let mut map = serde_json::Map::new();
    map.insert(
        "k".to_string(),
        serde_json::Value::Array(vec![serde_json::Value::from(1i64), serde_json::Value::Null]),
    );
    assert_eq!(value_to_json(&value), serde_json::Value::Object(map));
    assert_eq!(value_to_json(&Datum::Bool(true)), serde_json::Value::Bool(true));
    assert_eq!(value_to_json(&text("s")), serde_json::Value::String("s".to_string()));
    assert_eq!(value_to_json(&float(0.25)), serde_json::Value::from(0.25));
    assert_eq!(
        value_to_json(&Datum::Float { text: "NaN".to_string(), json: serde_json::Value::Null }),
        serde_json::Value::Null
    );
}

#[test]
fn json_bytes_of_a_value() {
    assert_eq!(json_bytes(&serde_json::Value::String("a\nb".to_string())), br#""a\nb""#.to_vec());
    assert_eq!(json_bytes(&serde_json::Value::Null), b"null".to_vec());
}

#[test]
fn serialized_text_or_nothing() {
    assert_eq!(text_or_empty(Some("{}".to_string())), b"{}".to_vec());
    assert_eq!(text_or_empty(None), Vec::<u8>::new());
}

#[test]
fn record_round_trips_through_json() {
    let value = record(vec![
        ("status", text("ok")),
        ("count", Datum::Int(3)),
        ("items", Datum::List(vec![text("a"), Datum::Bool(false), Datum::Nothing])),
        ("nested", record(vec![("k", text("v"))])),
    ]);
    let body = value_to_bytes(value);
    let parsed: serde_json::Value = serde_json::from_slice(&body).unwrap();
    let object = parsed.as_object().unwrap();
    let keys: Vec<&String> = object.keys().collect();
    assert_eq!(keys, vec!["status", "count", "items", "nested"]);
    assert_eq!(object["status"], serde_json::Value::String("ok".to_string()));
    assert_eq!(object["count"], serde_json::Value::from(3i64));
    assert_eq!(object["items"].as_array().unwrap().len(), 3);
    assert_eq!(object["nested"]["k"], serde_json::Value::String("v".to_string()));
    let mut reordered = serde_json::Map::new();
    reordered.insert("nested".to_string(), object["nested"].clone());
    reordered.insert("items".to_string(), object["items"].clone());
    reordered.insert("count".to_string(), object["count"].clone());
    reordered.insert("status".to_string(), object["status"].clone());
    assert_eq!(serde_json::Value::Object(reordered), parsed);
}
