use bundle_validator::json::{Json, JsonNumber};
use bundle_validator::validate::transform_dryrun::{
    analyze_unknown_data, check_for_unknown_data, creation_verdict, dryrun_payload, has_actual_data,
    http_failure_result, no_attempt_result, queryable_from_error_text, queryable_sql, querying_verdict,
    result_from_answer, should_retry, unknown_rows_sql, ValidationResult,
};

fn to_json(v: &serde_json::Value) -> Json {
    match v {
        serde_json::Value::Null => Json::Null,
        serde_json::Value::Bool(b) => Json::Bool(*b),
        serde_json::Value::Number(n) => {
            if let Some(u) = n.as_u64() {
                Json::Number(JsonNumber::PosInt(u))
            } else if let Some(i) = n.as_i64() {
                Json::Number(JsonNumber::NegInt(i))
            } else {
                let f = n.as_f64().unwrap_or(0.0);
                Json::Number(JsonNumber::Float { text: n.to_string(), saturated_u64: f as u64 })
            }
        }
        serde_json::Value::String(s) => Json::Str(s.clone()),
        serde_json::Value::Array(a) => Json::Array(a.iter().map(to_json).collect()),
        serde_json::Value::Object(m) => Json::Object(m.iter().map(|(k, v)| (k.clone(), to_json(v))).collect()),
    }
}

fn j(text: &str) -> Json {
    to_json(&serde_json::from_str::<serde_json::Value>(text).unwrap())
}

#[test]
fn empty_values_hold_no_data() {
    assert!(!has_actual_data(&j("null")));
    assert!(!has_actual_data(&j(r#""""#)));
    assert!(!has_actual_data(&j("{}")));
    assert!(!has_actual_data(&j("[]")));
    assert!(has_actual_data(&j("0")));
    assert!(has_actual_data(&j("false")));
    assert!(has_actual_data(&j(r#""x""#)));
}

#[test]
fn columnar_answer_is_read_by_its_unknown_column() {
    let answer = j(r#"{"meta":[{"name":"ts"},{"name":"unknown"}],
        "data":[[1,{"a":"b"}],[2,{}],[3],"junk",[4,"raw"]]}"#);
    assert_eq!(check_for_unknown_data(&answer), vec![j(r#"{"a":"b"}"#), j(r#""raw""#)]);
}

#[test]
fn columnar_answer_without_unknown_column_is_clean() {
    let answer = j(r#"{"meta":[{"name":"ts"}],"data":[[1]]}"#);
    assert!(check_for_unknown_data(&answer).is_empty());
}

#[test]
fn record_answers_are_read_record_by_record() {
    assert_eq!(check_for_unknown_data(&j(r#"[{"unknown":"x"},{"unknown":""},{"a":1}]"#)), vec![j(r#""x""#)]);
    assert_eq!(check_for_unknown_data(&j(r#"{"records":[{"unknown":[1]}]}"#)), vec![j("[1]")]);
    assert_eq!(check_for_unknown_data(&j(r#"{"unknown":{"k":1}}"#)), vec![j(r#"{"k":1}"#)]);
    assert!(check_for_unknown_data(&j(r#"{"records":5}"#)).is_empty());
    assert!(check_for_unknown_data(&j("7")).is_empty());
}

#[test]
fn payload_is_always_an_array() {
    assert_eq!(dryrun_payload(&j(r#"{"a":1}"#)), j(r#"[{"a":1}]"#));
    assert_eq!(dryrun_payload(&j(r#"[{"a":1}]"#)), j(r#"[{"a":1}]"#));
}

#[test]
fn answers_decide_the_result() {
    let r = result_from_answer(None);
    assert!(r.success && !r.has_unknown_data);
    let r = result_from_answer(Some(&j(r#"[{"unknown":"x"}]"#)));
    assert!(!r.success && r.has_unknown_data);
    assert_eq!(r.unknown_values, vec![j(r#""x""#)]);
    let r = result_from_answer(Some(&j(r#"[{"a":1}]"#)));
    assert!(r.success);
    let r = http_failure_result("400 Bad Request", "nope");
    assert_eq!(r.error, Some("HTTP 400 Bad Request: nope".to_string()));
    assert_eq!(no_attempt_result().error, Some("Validation failed after retries".to_string()));
}

#[test]
fn only_unknown_transform_errors_are_retried() {
    let waiting = ValidationResult::error("unknown transform foo".to_string());
    assert!(should_retry(&waiting, 1, 5));
    assert!(!should_retry(&waiting, 5, 5));
    let other = ValidationResult::error("HTTP 500: boom".to_string());
    assert!(!should_retry(&other, 1, 5));
    assert!(!should_retry(&ValidationResult::success(), 1, 5));
}

#[test]
fn failed_dry_run_fails_only_in_strict_mode() {
    let failed = ValidationResult::error("boom".to_string());
    assert_eq!(creation_verdict(&failed, "t.json", "t", &vec![], false), Ok(()));
    let e = creation_verdict(&failed, "t.json", "t", &vec![], true).unwrap_err();
    assert!(e.starts_with("Transform validation failed for t.json:\n  Transform: t\n  Error: boom\n\n  This usually indicates:"));
}

#[test]
fn unknown_data_message_quotes_three_samples() {
    let r = ValidationResult::unknown_data(vec![j("1"), j("2"), j("3"), j("4")]);
    let texts = vec!["1".to_string(), "2".to_string(), "3".to_string(), "4".to_string()];
    let e = creation_verdict(&r, "p", "n", &texts, true).unwrap_err();
    assert!(e.contains("Sample values: 1, 2, 3\n"));
    assert!(e.starts_with("Transform validation failed for p:\n  Transform: n\n  Issue: 'unknown' column contains data"));
    assert_eq!(creation_verdict(&ValidationResult::success(), "p", "n", &texts, true), Ok(()));
}

#[test]
fn analysis_sorts_catastrophic_from_minor_records() {
    let big = "x".repeat(151);
    let rows = vec![
        j(r#"{"hdx_transform":"a","unknown":{"data":"raw line"}}"#),
        j(&format!(r#"{{"hdx_transform":"b","unknown":{{"k":"{}"}}}}"#, big)),
        j(r#"{"hdx_transform":"a","unknown":{"k":"short"}}"#),
        j(r#"{"unknown":{"data":"again"}}"#),
        j(r#"{"hdx_transform":"a","unknown":{"data":"more"}}"#),
        j(r#"{"hdx_transform":"c","unknown":{}}"#),
    ];
    let a = analyze_unknown_data(&rows);
    assert_eq!(a.catastrophic_count, 4);
    assert_eq!(a.minor_count, 1);
    assert_eq!(
        a.catastrophic_by_transform,
        vec![("a".to_string(), 2), ("b".to_string(), 1), ("unknown".to_string(), 1)]
    );
}

#[test]
fn a_string_of_exactly_the_threshold_is_minor() {
    let edge = "y".repeat(150);
    let rows = vec![j(&format!(r#"{{"unknown":{{"k":"{}"}}}}"#, edge))];
    let a = analyze_unknown_data(&rows);
    assert_eq!((a.catastrophic_count, a.minor_count), (0, 1));
}

#[test]
fn catastrophic_records_fail_the_strict_query_check() {
    let answer = j(r#"{"data":[{"hdx_transform":"t1","unknown":{"data":"raw"}}]}"#);
    let e = querying_verdict(&answer, "p.json", "t1", true).unwrap_err();
    assert!(e.contains("Found 1 record(s) with raw unparsed data\n  Broken transforms: t1\n"));
    assert_eq!(querying_verdict(&answer, "p.json", "t1", false), Ok(()));
    assert_eq!(querying_verdict(&j(r#"{"data":[]}"#), "p", "t", true), Ok(()));
    assert_eq!(querying_verdict(&j(r#"{"rows":0}"#), "p", "t", true), Ok(()));
}

#[test]
fn query_texts() {
    assert_eq!(
        unknown_rows_sql("proj", "tbl"),
        "SELECT hdx_transform, unknown FROM proj.tbl WHERE mapKeys(unknown) != [] LIMIT 100 FORMAT JSON"
    );
    assert_eq!(queryable_sql("proj", "tbl"), "SELECT 1 FROM proj.tbl LIMIT 1 FORMAT JSON");
    assert!(!queryable_from_error_text("Pool name query-peer does not exist"));
    assert!(queryable_from_error_text("syntax error"));
}
