use bundle_validator::json::{Json, JsonNumber};
use bundle_validator::validate::sample_data_freshness::{freshness_warning, resolve_primary_value, translate_go_layout};

fn to_json(v: &serde_json::Value) -> Json {
    match v {
        serde_json::Value::Null => Json::Null,
        serde_json::Value::Bool(b) => Json::Bool(*b),
        serde_json::Value::Number(n) => {
            if let Some(u) = n.as_u64() {
                Json::Number(JsonNumber::PosInt(u))
            } else if let Some(i) = n.as_i64() {
                Json::Number(JsonNumber::NegInt(i))
            } else {
                let f = n.as_f64().unwrap_or(0.0);
                Json::Number(JsonNumber::Float { text: n.to_string(), saturated_u64: f as u64 })
            }
        }
        serde_json::Value::String(s) => Json::Str(s.clone()),
        serde_json::Value::Array(a) => Json::Array(a.iter().map(to_json).collect()),
        serde_json::Value::Object(m) => Json::Object(m.iter().map(|(k, v)| (k.clone(), to_json(v))).collect()),
    }
}

fn j(text: &str) -> Json {
    to_json(&serde_json::from_str::<serde_json::Value>(text).unwrap())
}

const NOW: u64 = 1_750_000_000;
const DAY: u64 = 86_400;

fn epoch_transform(ts: u64) -> Json {
    j(&format!(
        r#"{{"settings":{{"output_columns":[{{"name":"ts","datatype":{{"type":"epoch","primary":true,"format":"s"}}}}],
        "sample_data":{{"ts":{}}}}}}}"#,
        ts
    ))
}

#[test]
fn strptime_layouts_translate_token_by_token() {
    assert_eq!(translate_go_layout("2006-01-02T15:04:05"), "%Y-%m-%dT%H:%M:%S");
    assert_eq!(translate_go_layout("2006-01-02 15:04:05.000"), "%Y-%m-%d %H:%M:%S%.f");
    assert_eq!(translate_go_layout("05.999999Z"), "%S%.fZ");
    assert_eq!(translate_go_layout(".000000000"), "%.f");
    assert_eq!(translate_go_layout("x"), "x");
}

#[test]
fn fresh_data_passes() {
    assert_eq!(freshness_warning(&epoch_transform(NOW - DAY), "transforms/t.json", NOW), None);
}

#[test]
fn stale_data_warns() {
    let w = freshness_warning(&epoch_transform(NOW - 200 * DAY), "transforms/t.json", NOW).unwrap();
    assert_eq!(
        w,
        "Stale sample_data in transforms/t.json: primary timestamp 'ts' is ~200 days old (threshold: 183 days)"
    );
}

#[test]
fn exactly_the_threshold_is_not_stale() {
    assert_eq!(freshness_warning(&epoch_transform(NOW - 183 * DAY), "t", NOW), None);
}

#[test]
fn millisecond_epochs_are_scaled() {
    let t = j(&format!(
        r#"{{"settings":{{"output_columns":[{{"name":"ts","datatype":{{"type":"epoch","primary":true,"format":"ms"}}}}],
        "sample_data":{{"ts":"{}"}}}}}}"#,
        (NOW - 300 * DAY) * 1000
    ));
    assert!(freshness_warning(&t, "t", NOW).unwrap().contains("~300 days old"));
}

#[test]
fn stale_datetime_warns() {
    let t = j(r#"{"settings":{"output_columns":[{"name":"timestamp","datatype":{"type":"datetime","primary":true,
        "format":"2006-01-02 15:04:05"}}],"sample_data":{"timestamp":"2020-01-01 00:00:00"}}}"#);
    assert!(freshness_warning(&t, "t", NOW).unwrap().contains("primary timestamp 'timestamp'"));
}

#[test]
fn nested_pointer_values_are_found() {
    let t = j(&format!(
        r#"{{"settings":{{"output_columns":[{{"name":"ts","datatype":{{"type":"epoch","primary":true,
        "source":{{"from_json_pointers":["/httpMessage/start"]}}}}}}],
        "sample_data":{{"httpMessage":{{"start":{}}}}}}}}}"#,
        NOW - 400 * DAY
    ));
    assert!(freshness_warning(&t, "t", NOW).unwrap().contains("~400 days old"));
}

#[test]
fn renamed_input_fields_are_found() {
    let col = j(r#"{"name":"ts","datatype":{"source":{"from_input_field":"time"}}}"#);
    let sample = j(r#"{"time":5}"#);
    assert_eq!(resolve_primary_value(&col, &sample), Some(&j("5")));
    let sample = j(r#"{"ts":null}"#);
    assert_eq!(resolve_primary_value(&col, &sample), Some(&j("null")));
}

#[test]
fn no_primary_column_passes() {
    let t = j(r#"{"settings":{"output_columns":[{"name":"ts","datatype":{"type":"epoch"}}],"sample_data":{"ts":1}}}"#);
    assert_eq!(freshness_warning(&t, "t", NOW), None);
}
