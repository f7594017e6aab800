use bundle_validator::deploy::verify::{
    coerce_to_epoch_secs, diagnose_zero_rows, go_layout_to_chrono, ingest_errors_sql,
    missing_required_fields, parts_sql, primary_timestamp_from_transform, stale_finding,
    stale_primary_timestamp,
};
use bundle_validator::json::{Json, JsonNumber};

fn to_json(v: &serde_json::Value) -> Json {
    match v {
        serde_json::Value::Null => Json::Null,
        serde_json::Value::Bool(b) => Json::Bool(*b),
        serde_json::Value::Number(n) => {
            if let Some(u) = n.as_u64() {
                Json::Number(JsonNumber::PosInt(u))
            } else if let Some(i) = n.as_i64() {
                Json::Number(JsonNumber::NegInt(i))
            } else {
                let f = n.as_f64().unwrap_or(0.0);
                Json::Number(JsonNumber::Float { text: n.to_string(), saturated_u64: f as u64 })
            }
        }
        serde_json::Value::String(s) => Json::Str(s.clone()),
        serde_json::Value::Array(a) => Json::Array(a.iter().map(to_json).collect()),
        serde_json::Value::Object(m) => Json::Object(m.iter().map(|(k, v)| (k.clone(), to_json(v))).collect()),
    }
}

fn j(text: &str) -> Json {
    to_json(&serde_json::from_str::<serde_json::Value>(text).unwrap())
}

#[test]
fn primary_epoch_returns_name_value_and_format() {
    let transform = j(r#"{"settings":{"output_columns":[{"name":"ts","datatype":{"type":"epoch","primary":true,"format":"s"}}],
        "sample_data":{"ts":1607368207}}}"#);
    assert_eq!(
        primary_timestamp_from_transform(&transform),
        Some(("ts".to_string(), j("1607368207"), "s".to_string()))
    );
}

#[test]
fn primary_timestamp_recognizes_datetime_type() {
    let transform = j(r#"{"settings":{"output_columns":[{"name":"timestamp","datatype":{"type":"datetime","primary":true,
        "format":"2006-01-02T15:04:05"}}],"sample_data":{"timestamp":"2025-10-02T21:06:14"}}}"#);
    assert_eq!(
        primary_timestamp_from_transform(&transform),
        Some(("timestamp".to_string(), j(r#""2025-10-02T21:06:14""#), "2006-01-02T15:04:05".to_string()))
    );
}

#[test]
fn coerce_to_epoch_secs_handles_numeric_value() {
    assert_eq!(coerce_to_epoch_secs(&j("1607368207"), "s"), Some(1607368207));
}

#[test]
fn coerce_to_epoch_secs_handles_numeric_string() {
    assert_eq!(coerce_to_epoch_secs(&j(r#""1607368207""#), "s"), Some(1607368207));
}

#[test]
fn coerce_to_epoch_secs_parses_go_layout_basic() {
    assert_eq!(
        coerce_to_epoch_secs(&j(r#""2025-10-02T21:06:14""#), "2006-01-02T15:04:05"),
        Some(1_759_439_174)
    );
}

#[test]
fn coerce_to_epoch_secs_parses_go_layout_with_trailing_z() {
    assert_eq!(
        coerce_to_epoch_secs(&j(r#""2025-10-02T21:06:14Z""#), "2006-01-02T15:04:05Z"),
        Some(1_759_439_174)
    );
}

#[test]
fn coerce_to_epoch_secs_parses_go_layout_space_separator() {
    assert_eq!(
        coerce_to_epoch_secs(&j(r#""2025-10-02 21:06:14""#), "2006-01-02 15:04:05"),
        Some(1_759_439_174)
    );
}

#[test]
fn coerce_to_epoch_secs_returns_none_for_unparseable_datetime() {
    assert_eq!(coerce_to_epoch_secs(&j(r#""not a date""#), "2006-01-02T15:04:05"), None);
}

#[test]
fn coerce_to_epoch_secs_returns_none_for_format_with_no_tokens() {
    assert_eq!(coerce_to_epoch_secs(&j(r#""anything""#), "weird-format"), None);
}

#[test]
fn coerce_to_epoch_secs_applies_sub_second_divisors() {
    assert_eq!(coerce_to_epoch_secs(&j("1607368207000"), "ms"), Some(1607368207));
    assert_eq!(coerce_to_epoch_secs(&j("1607368207000000"), "us"), Some(1607368207));
    assert_eq!(coerce_to_epoch_secs(&j("1607368207000000000"), "ns"), Some(1607368207));
}

#[test]
fn missing_required_fields_reports_primary_when_absent() {
    let transform = j(r#"{"settings":{"output_columns":[{"name":"ts","datatype":{"type":"epoch","primary":true}},
        {"name":"bytes","datatype":{"type":"uint64"}}],"sample_data":{"bytes":42}}}"#);
    assert_eq!(missing_required_fields(&transform), vec!["ts".to_string()]);
}

#[test]
fn missing_required_fields_empty_when_primary_present() {
    let transform = j(r#"{"settings":{"output_columns":[{"name":"ts","datatype":{"type":"epoch","primary":true}},
        {"name":"bytes","datatype":{"type":"uint64"}}],"sample_data":{"ts":1,"bytes":42}}}"#);
    assert!(missing_required_fields(&transform).is_empty());
}

#[test]
fn missing_required_fields_ignores_non_primary_absences() {
    let transform = j(r#"{"settings":{"output_columns":[{"name":"ts","datatype":{"type":"epoch","primary":true}},
        {"name":"bytes","datatype":{"type":"uint64"}},{"name":"host","datatype":{"type":"string"}}],"sample_data":{"ts":1}}}"#);
    assert!(missing_required_fields(&transform).is_empty(), "non-primary absences must not be reported");
}

#[test]
fn primary_epoch_returns_none_when_no_primary_column() {
    let transform = j(r#"{"settings":{"output_columns":[{"name":"bytes","datatype":{"type":"uint64"}},
        {"name":"ts","datatype":{"type":"epoch","format":"s"}}],"sample_data":{"bytes":42,"ts":1607368207}}}"#);
    assert_eq!(primary_timestamp_from_transform(&transform), None);
}

#[test]
fn go_layouts_translate_token_by_token() {
    assert_eq!(go_layout_to_chrono("2006-01-02T15:04:05"), Some("%Y-%m-%dT%H:%M:%S".to_string()));
    assert_eq!(go_layout_to_chrono("weird-format"), None);
}

#[test]
fn diagnose_falls_back_when_no_finding() {
    let transform = j(r#"{"settings":{"output_columns":[],"sample_data":{}}}"#);
    let d = diagnose_zero_rows(&None, &transform, &Some("  ".to_string()), &None);
    assert!(d.starts_with("No obvious cause detected"));
}

#[test]
fn diagnose_includes_system_parts_summary() {
    let transform = j(r#"{"settings":{"output_columns":[],"sample_data":{}}}"#);
    let d = diagnose_zero_rows(&None, &transform, &Some(" 3\t1\n".to_string()), &Some("e1".to_string()));
    assert_eq!(d, "system.parts: 3\t1\n  Recent ingest errors: e1");
}

#[test]
fn diagnose_emits_missing_required_fields_when_primary_absent() {
    let transform = j(r#"{"settings":{"output_columns":[{"name":"ts","datatype":{"type":"epoch","primary":true}}],"sample_data":{"x":1}}}"#);
    let d = diagnose_zero_rows(&None, &transform, &None, &None);
    assert_eq!(d, "sample_data MISSING REQUIRED FIELDS: [\"ts\"] — transform would reject these rows.");
}

#[test]
fn diagnose_emits_primary_timestamp_stale() {
    let transform = j(r#"{"settings":{"output_columns":[{"name":"ts","datatype":{"type":"epoch","primary":true,"format":"s"}}],
        "sample_data":{"ts":1600000000}}}"#);
    let settings = j(r#"{"age":{"max_age_days":30}}"#);
    let st = stale_primary_timestamp(&transform, &settings, 1_704_067_200).unwrap();
    assert_eq!(st.age_days, 1204);
    assert_eq!(st.max_age_days, 30);
    let msg = stale_finding(&st, "1600000000");
    assert_eq!(
        msg,
        "PRIMARY TIMESTAMP STALE: sample_data.ts = 1600000000 (1204 days old), table max_age_days = 30. Row was expired on arrival."
    );
    let fresh = stale_primary_timestamp(&transform, &settings, 1_600_000_100);
    assert!(fresh.is_none());
}

#[test]
fn diagnosis_queries_name_the_table() {
    assert_eq!(
        parts_sql("p", "t"),
        "SELECT count() AS total, sum(active) AS active_count, min(min_time) AS oldest, max(max_time) AS newest FROM system.parts WHERE database = 'p' AND table = 't'"
    );
    assert_eq!(
        ingest_errors_sql("p", "t"),
        "SELECT timestamp, error FROM system.ingest_errors WHERE table = 'p.t' ORDER BY timestamp DESC LIMIT 3"
    );
}
