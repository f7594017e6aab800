use bundle_validator::json::{Json, JsonNumber};
use bundle_validator::validate::transform_sql::{
    create_failure_result, drop_table_sql, firehose_text, infer_schema_from_sample, validation_inputs, extract_error_message, generate_create_table_sql, generate_insert_sql,
    infer_clickhouse_type, infer_flat_schema, output_result, query_with_format, transform_sql_for,
};

fn to_json(v: &serde_json::Value) -> Json {
    match v {
        serde_json::Value::Null => Json::Null,
        serde_json::Value::Bool(b) => Json::Bool(*b),
        serde_json::Value::Number(n) => {
            if let Some(u) = n.as_u64() {
                Json::Number(JsonNumber::PosInt(u))
            } else if let Some(i) = n.as_i64() {
                Json::Number(JsonNumber::NegInt(i))
            } else {
                let f = n.as_f64().unwrap_or(0.0);
                Json::Number(JsonNumber::Float { text: n.to_string(), saturated_u64: f as u64 })
            }
        }
        serde_json::Value::String(s) => Json::Str(s.clone()),
        serde_json::Value::Array(a) => Json::Array(a.iter().map(to_json).collect()),
        serde_json::Value::Object(m) => Json::Object(m.iter().map(|(k, v)| (k.clone(), to_json(v))).collect()),
    }
}

fn j(text: &str) -> Json {
    to_json(&serde_json::from_str::<serde_json::Value>(text).unwrap())
}

#[test]
fn clickhouse_types_follow_the_values() {
    assert_eq!(infer_clickhouse_type(&j("null")), "Nullable(String)");
    assert_eq!(infer_clickhouse_type(&j("true")), "Nullable(UInt8)");
    assert_eq!(infer_clickhouse_type(&j("42")), "Nullable(Int64)");
    assert_eq!(infer_clickhouse_type(&j("-42")), "Nullable(Int64)");
    assert_eq!(infer_clickhouse_type(&j("18446744073709551615")), "Nullable(Float64)");
    assert_eq!(infer_clickhouse_type(&j("1.5")), "Nullable(Float64)");
    assert_eq!(infer_clickhouse_type(&j(r#""1607368207""#)), "Nullable(DateTime64(3))");
    assert_eq!(infer_clickhouse_type(&j(r#""1607368207123""#)), "Nullable(DateTime64(3))");
    assert_eq!(infer_clickhouse_type(&j(r#""123456789""#)), "Nullable(String)");
    assert_eq!(infer_clickhouse_type(&j(r#""16073682071234""#)), "Nullable(String)");
    assert_eq!(infer_clickhouse_type(&j(r#""16073682x7""#)), "Nullable(String)");
    assert_eq!(infer_clickhouse_type(&j("[1]")), "Nullable(String)");
}

#[test]
fn flat_schema_and_create_statement() {
    let cols = infer_flat_schema(&j(r#"{"a":1,"b":"x"}"#)).unwrap();
    assert_eq!(cols.len(), 2);
    assert_eq!(
        generate_create_table_sql("temp_validate_1", &cols),
        "CREATE TEMPORARY TABLE temp_validate_1 (\n    `a` Nullable(Int64),\n    `b` Nullable(String)\n) ENGINE = Memory"
    );
    assert!(infer_flat_schema(&j("[1]")).is_none());
}

#[test]
fn statements_around_the_memory_table() {
    assert_eq!(generate_insert_sql("t", r#"{"a":1}"#), r#"INSERT INTO t FORMAT JSONEachRow {"a":1}"#);
    assert_eq!(transform_sql_for("SELECT * FROM {STREAM}", "t"), "SELECT * FROM t");
    assert_eq!(query_with_format("SELECT 1"), "SELECT 1 FORMAT JSON");
    assert_eq!(query_with_format("SELECT 1 FORMAT CSV"), "SELECT 1 FORMAT CSV");
    assert_eq!(drop_table_sql("t"), "DROP TABLE IF EXISTS t");
}

#[test]
fn missing_rights_skip_the_check() {
    assert!(create_failure_result("Code: 516. AUTHENTICATION_FAILED").success);
    let r = create_failure_result("boom");
    assert!(!r.success);
    assert_eq!(r.error, Some("Failed to create temp table: boom".to_string()));
}

#[test]
fn error_messages_come_from_the_answer() {
    assert_eq!(extract_error_message(Some(&j(r#"{"message":"bad sql"}"#))), "bad sql");
    assert_eq!(extract_error_message(None), "Unknown SQL error");
}

#[test]
fn outputs_are_judged_by_their_fields() {
    let r = output_result("", None, 4);
    assert_eq!(r.error, Some("Transform produced no output rows".to_string()));
    assert_eq!(r.output_field_count, Some(0));
    let r = output_result("DB::Exception: x", Some(&j(r#"{"message":"x"}"#)), 4);
    assert_eq!(r.sql_error, Some("x".to_string()));
    let text = r#"{"data":[{"a":1}]}"#;
    let r = output_result(text, Some(&j(text)), 4);
    assert!(!r.success);
    assert_eq!(r.error, Some("Catastrophic field loss: 4 input fields → 1 output fields".to_string()));
    let text = r#"{"data":[{"a":1,"b":2}]}"#;
    let r = output_result(text, Some(&j(text)), 4);
    assert!(r.success);
    assert_eq!(r.output_field_count, Some(2));
    assert!(output_result("not json", None, 4).success);
}

#[test]
fn inputs_are_the_sql_and_the_first_sample() {
    let t = j(r#"{"settings":{"sql_transform":"SELECT 1","sample_data":[{"a":1},{"b":2}]}}"#);
    let (sql, sample) = validation_inputs(&t).unwrap();
    assert_eq!(sql, "SELECT 1");
    assert_eq!(sample, &j(r#"{"a":1}"#));
    assert!(validation_inputs(&j(r#"{"settings":{"sql_transform":"S","sample_data":[]}}"#)).is_none());
    assert!(validation_inputs(&j(r#"{"settings":{"sample_data":{"a":1}}}"#)).is_none());
}

#[test]
fn firehose_records_are_decoded() {
    let t = j(r#"{"settings":{"format_details":{"subtype":"firehose"}}}"#);
    let sample = j(r#"{"records":[{"data":"eyJhIjoxfQ=="}]}"#);
    assert_eq!(firehose_text(&sample, &t), Some(r#"{"a":1}"#.to_string()));
    assert_eq!(firehose_text(&j(r#"{"records":[{"data":"!!"}]}"#), &t), None);
    assert_eq!(firehose_text(&sample, &j("{}")), None);
    let decoded = j(r#"{"a":1}"#);
    let (cols, flat) = infer_schema_from_sample(&sample, Some(&decoded)).unwrap();
    assert_eq!((cols.len(), flat), (1, j(r#"{"a":1}"#)));
    let (cols, _) = infer_schema_from_sample(&sample, None).unwrap();
    assert_eq!(cols[0].name, "records");
    assert!(infer_schema_from_sample(&j("[1]"), Some(&j("2"))).is_none());
}
