//! Checking a transform's SQL against its sample data in a ClickHouse
//! memory table: the table's schema is inferred from the sample, and the
//! transform's output is compared with its input.
//!
//! The queries are the caller's; this module writes them and reads what
//! comes back.
use vstd::prelude::*;
use crate::json::{Json, JsonNumber, copy_json};
use crate::ext::{base64_decode_text, base64_text_spec};
use crate::text::{concat, append, contains, str_contains, str_replace, replace, is_digit, utf8_len, decimal, u64_to_string, chars_of};

verus! {

broadcast use vstd::string::group_string_axioms;

/// What running a transform's SQL on its sample data found.
pub struct ValidationResult {
    pub success: bool,
    pub error: Option<String>,
    pub input_field_count: Option<usize>,
    pub output_field_count: Option<usize>,
    pub missing_fields: Vec<String>,
    pub sql_error: Option<String>,
}

impl ValidationResult {
    /// Nothing wrong was found (or nothing could be checked).
    pub fn success() -> (r: Self)
        ensures
            r.success,
            r.error is None,
            r.input_field_count is None,
            r.output_field_count is None,
            r.missing_fields@.len() == 0,
            r.sql_error is None,
    {
        ValidationResult {
            success: true,
            error: None,
            input_field_count: None,
            output_field_count: None,
            missing_fields: Vec::new(),
            sql_error: None,
        }
    }

    /// The check failed with `msg`.
    pub fn error(msg: String) -> (r: Self)
        ensures
            !r.success,
            r.error == Some(msg),
            r.input_field_count is None,
            r.output_field_count is None,
            r.missing_fields@.len() == 0,
            r.sql_error is None,
    {
        ValidationResult {
            success: false,
            error: Some(msg),
            input_field_count: None,
            output_field_count: None,
            missing_fields: Vec::new(),
            sql_error: None,
        }
    }
}

/// A column of the memory table.
pub struct SchemaColumn {
    pub name: String,
    pub column_type: String,
}

/// Whether a JSON number is one that `serde_json` holds as an `i64`.
pub open spec fn number_is_i64(n: JsonNumber) -> bool {
    match n {
        JsonNumber::PosInt(u) => u <= i64::MAX,
        JsonNumber::NegInt(_) => true,
        JsonNumber::Float { .. } => false,
    }
}

/// Whether a string looks like an epoch timestamp: 10 to 13 ASCII digits.
pub open spec fn looks_like_epoch(s: Seq<char>) -> bool {
    10 <= utf8_len(s) <= 13 && forall|i: int| 0 <= i < s.len() ==> is_digit(#[trigger] s[i])
}

/// The ClickHouse type of a column that holds `v`.
pub open spec fn clickhouse_type(v: Json) -> Seq<char> {
    match v {
        Json::Null => "Nullable(String)"@,
        Json::Bool(_) => "Nullable(UInt8)"@,
        Json::Number(n) => if number_is_i64(n) {
            "Nullable(Int64)"@
        } else {
            "Nullable(Float64)"@
        },
        Json::Str(s) => if looks_like_epoch(s@) {
            "Nullable(DateTime64(3))"@
        } else {
            "Nullable(String)"@
        },
        _ => "Nullable(String)"@,
    }
}

proof fn lemma_digits_utf8_len(s: Seq<char>)
    requires
        forall|i: int| 0 <= i < s.len() ==> is_digit(#[trigger] s[i]),
    ensures
        utf8_len(s) == s.len(),
    decreases s.len(),
{
    if s.len() > 0 {
        assert(is_digit(s[s.len() - 1]));
        let t = s.drop_last();
        assert forall|i: int| 0 <= i < t.len() implies is_digit(#[trigger] t[i]) by {
            assert(t[i] == s[i]);
        }
        lemma_digits_utf8_len(t);
    }
}

/// The ClickHouse type of a column that holds `value`.
pub fn infer_clickhouse_type(value: &Json) -> (r: String)
    ensures
        r@ == clickhouse_type(*value),
{
    match value {
        Json::Null => "Nullable(String)".to_string(),
        Json::Bool(_) => "Nullable(UInt8)".to_string(),
        Json::Number(n) => {
            let small = match n {
                JsonNumber::PosInt(u) => *u <= 9223372036854775807u64,
                JsonNumber::NegInt(_) => true,
                JsonNumber::Float { .. } => false,
            };
            if small {
                "Nullable(Int64)".to_string()
            } else {
                "Nullable(Float64)".to_string()
            }
        },
        Json::Str(s) => {
            let cs = chars_of(s.as_str());
            let mut all_digits = true;
            let mut i: usize = 0;
            while i < cs.len()
                invariant
                    i <= cs@.len(),
                    cs@ == s@,
                    all_digits == forall|j: int| 0 <= j < i ==> is_digit(#[trigger] cs@[j]),
                decreases cs.len() - i,
            {
                if !crate::text::digit(cs[i]) {
                    all_digits = false;
                }
                i = i + 1;
            }
            if all_digits && 10 <= cs.len() && cs.len() <= 13 {
                proof {
                    lemma_digits_utf8_len(s@);
                }
                "Nullable(DateTime64(3))".to_string()
            } else {
                proof {
                    if all_digits {
                        lemma_digits_utf8_len(s@);
                    }
                }
                "Nullable(String)".to_string()
            }
        },
        _ => "Nullable(String)".to_string(),
    }
}

/// The columns of a flat sample record: one per member, in the record's
/// order, typed by its value. `None` when the sample is not an object.
pub open spec fn flat_schema(sample: Json) -> Option<Seq<(Seq<char>, Seq<char>)>> {
    match sample {
        Json::Object(m) => Some(
            Seq::new(m@.len(), |i: int| (m@[i].0@, clickhouse_type(m@[i].1))),
        ),
        _ => None,
    }
}

pub open spec fn columns_view(c: Seq<SchemaColumn>) -> Seq<(Seq<char>, Seq<char>)> {
    Seq::new(c.len(), |i: int| (c[i].name@, c[i].column_type@))
}

/// The memory table's columns for a flat sample record.
pub fn infer_flat_schema(sample: &Json) -> (r: Option<Vec<SchemaColumn>>)
    ensures
        match r {
            Some(c) => flat_schema(*sample) == Some(columns_view(c@)),
            None => flat_schema(*sample) is None,
        },
{
    match sample {
        Json::Object(m) => {
            let mut cols: Vec<SchemaColumn> = Vec::new();
            let mut i: usize = 0;
            while i < m.len()
                invariant
                    i <= m@.len(),
                    cols@.len() == i,
                    forall|k: int| 0 <= k < i ==> (#[trigger] cols@[k]).name@ == m@[k].0@
                        && cols@[k].column_type@ == clickhouse_type(m@[k].1),
                decreases m.len() - i,
            {
                let name = m[i].0.clone();
                let column_type = infer_clickhouse_type(&m[i].1);
                cols.push(SchemaColumn { name, column_type });
                i = i + 1;
            }
            assert(columns_view(cols@) =~= Seq::new(m@.len(), |k: int| (m@[k].0@, clickhouse_type(m@[k].1))));
            Some(cols)
        },
        _ => None,
    }
}

/// The column definitions of a table, joined by a comma and a new line.
pub open spec fn column_defs(c: Seq<(Seq<char>, Seq<char>)>) -> Seq<char>
    decreases c.len(),
{
    if c.len() == 0 {
        Seq::empty()
    } else if c.len() == 1 {
        "`"@ + c[0].0 + "` "@ + c[0].1
    } else {
        column_defs(c.drop_last()) + ",\n    "@ + "`"@ + c.last().0 + "` "@ + c.last().1
    }
}

/// The statement that creates the memory table.
pub open spec fn create_table_sql(table: Seq<char>, c: Seq<(Seq<char>, Seq<char>)>) -> Seq<char> {
    "CREATE TEMPORARY TABLE "@ + table + " (\n    "@ + column_defs(c) + "\n) ENGINE = Memory"@
}

/// The statement that creates a memory table with these columns.
pub fn generate_create_table_sql(table_name: &str, columns: &Vec<SchemaColumn>) -> (r: String)
    ensures
        r@ == create_table_sql(table_name@, columns_view(columns@)),
{
    let mut defs = String::new();
    let mut i: usize = 0;
    while i < columns.len()
        invariant
            i <= columns@.len(),
            defs@ == column_defs(columns_view(columns@).take(i as int)),
        decreases columns.len() - i,
    {
        let ghost pre = columns_view(columns@).take(i as int);
        let ghost post = columns_view(columns@).take(i + 1);
        assert(post.drop_last() =~= pre);
        if i > 0 {
            append(&mut defs, ",\n    ");
        }
        append(&mut defs, "`");
        append(&mut defs, columns[i].name.as_str());
        append(&mut defs, "` ");
        append(&mut defs, columns[i].column_type.as_str());
        proof {
            if i == 0 {
                assert(pre =~= Seq::<(Seq<char>, Seq<char>)>::empty());
                assert(defs@ =~= column_defs(post));
            } else {
                assert(defs@ =~= column_defs(post));
            }
        }
        i = i + 1;
    }
    assert(columns_view(columns@).take(columns@.len() as int) =~= columns_view(columns@));
    let mut r = concat("CREATE TEMPORARY TABLE ", table_name);
    append(&mut r, " (\n    ");
    append(&mut r, defs.as_str());
    append(&mut r, "\n) ENGINE = Memory");
    r
}

/// The statement that loads the sample into the table; `data_text` is the
/// sample's JSON text.
pub fn generate_insert_sql(table_name: &str, data_text: &str) -> (r: String)
    ensures
        r@ == "INSERT INTO "@ + table_name@ + " FORMAT JSONEachRow "@ + data_text@,
{
    let mut r = concat("INSERT INTO ", table_name);
    append(&mut r, " FORMAT JSONEachRow ");
    append(&mut r, data_text);
    r
}

/// The transform's SQL run against the memory table in place of the stream.
pub fn transform_sql_for(sql_transform: &str, table_name: &str) -> (r: String)
    ensures
        r@ == replace(sql_transform@, "{STREAM}"@, table_name@),
{
    str_replace(sql_transform, "{STREAM}", table_name)
}

/// The statement sent for `query`: as it is when it names a format, else
/// asking for JSON.
pub fn query_with_format(query: &str) -> (r: String)
    ensures
        r@ == if contains(query@, "FORMAT"@) {
            query@
        } else {
            query@ + " FORMAT JSON"@
        },
{
    if str_contains(query, "FORMAT") {
        query.to_string()
    } else {
        concat(query, " FORMAT JSON")
    }
}

/// The statement that drops the memory table.
pub fn drop_table_sql(table_name: &str) -> (r: String)
    ensures
        r@ == "DROP TABLE IF EXISTS "@ + table_name@,
{
    concat("DROP TABLE IF EXISTS ", table_name)
}

/// What a failure to create the memory table means: without the rights to
/// do so the check is skipped; anything else fails it.
pub fn create_failure_result(error: &str) -> (r: ValidationResult)
    ensures
        if contains(error@, "AUTHENTICATION_FAILED"@) || contains(error@, "authentication failed"@) {
            r.success && r.error is None
        } else {
            !r.success && (r.error matches Some(m) && m@ == "Failed to create temp table: "@ + error@)
        },
{
    if str_contains(error, "AUTHENTICATION_FAILED") || str_contains(error, "authentication failed") {
        return ValidationResult::success();
    }
    ValidationResult::error(concat("Failed to create temp table: ", error))
}

/// What a failure of the transform's SQL means.
pub fn transform_failure_result(error: String, input_field_count: usize) -> (r: ValidationResult)
    ensures
        !r.success,
        r.error matches Some(m) && m@ == "Transform SQL failed"@,
        r.sql_error == Some(error),
        r.input_field_count == Some(input_field_count),
        r.output_field_count is None,
{
    ValidationResult {
        success: false,
        error: Some("Transform SQL failed".to_string()),
        sql_error: Some(error),
        input_field_count: Some(input_field_count),
        output_field_count: None,
        missing_fields: Vec::new(),
    }
}

/// The message of an error answer: its `message` member when the answer is
/// JSON that has one as a string.
pub open spec fn error_message_spec(answer: Option<Json>) -> Seq<char> {
    match answer {
        Some(j) => match j.get_spec("message"@) {
            Some(m) => match m.str_spec() {
                Some(s) => s,
                None => "Unknown SQL error"@,
            },
            None => "Unknown SQL error"@,
        },
        None => "Unknown SQL error"@,
    }
}

/// The message of an error answer (`answer` is the answer parsed as JSON,
/// `None` when it is not JSON).
pub fn extract_error_message(answer: Option<&Json>) -> (r: String)
    ensures
        r@ == error_message_spec(match answer {
            Some(j) => Some(*j),
            None => None,
        }),
{
    match answer {
        Some(j) => match j.get("message") {
            Some(m) => match m.as_str() {
                Some(s) => s.clone(),
                None => "Unknown SQL error".to_string(),
            },
            None => "Unknown SQL error".to_string(),
        },
        None => "Unknown SQL error".to_string(),
    }
}

/// The number of fields of the first output row, when the answer has one
/// that is an object.
pub open spec fn output_fields(answer: Json) -> Option<nat> {
    match answer.get_spec("data"@) {
        Some(d) => match d.array_spec() {
            Some(rows) => if rows.len() > 0 && rows[0].is_object() {
                Some(rows[0].object_len())
            } else {
                None
            },
            None => None,
        },
        None => None,
    }
}

/// Whether going from `input` fields to `output` fields loses more than
/// half of them.
pub open spec fn catastrophic_loss(input: int, output: int) -> bool {
    2 * (input - output) > input
}

/// What the transform's output says. `output` is its text and `answer` that
/// text parsed as JSON (`None` when it is not JSON). An empty output, an
/// output that reports a ClickHouse error, and one whose first row lost more
/// than half of the input's fields fail the check.
pub fn output_result(output: &str, answer: Option<&Json>, input_field_count: usize) -> (r: ValidationResult)
    ensures
        output@.len() == 0 ==> !r.success && (r.error matches Some(m) && m@ == "Transform produced no output rows"@)
            && r.output_field_count == Some(0usize) && r.input_field_count == Some(input_field_count),
        output@.len() > 0 && (contains(output@, "indexerError"@) || contains(output@, "DB::Exception"@)) ==>
            !r.success && (r.error matches Some(m) && m@ == "SQL transform failed"@)
            && (r.sql_error matches Some(m) && m@ == error_message_spec(match answer {
                Some(j) => Some(*j),
                None => None,
            })),
        output@.len() > 0 && !contains(output@, "indexerError"@) && !contains(output@, "DB::Exception"@) ==> match answer {
            Some(j) => match output_fields(*j) {
                Some(n) => r.output_field_count == Some(n as usize) && r.input_field_count == Some(input_field_count)
                    && r.success == !catastrophic_loss(input_field_count as int, n as int)
                    && (!r.success ==> (r.error matches Some(m) && m@ == "Catastrophic field loss: "@
                        + decimal(input_field_count as nat) + " input fields → "@ + decimal(n) + " output fields"@)),
                None => r.success && r.output_field_count is None,
            },
            None => r.success && r.output_field_count is None,
        },
{
    if output.is_empty() {
        return ValidationResult {
            success: false,
            error: Some("Transform produced no output rows".to_string()),
            input_field_count: Some(input_field_count),
            output_field_count: Some(0),
            missing_fields: Vec::new(),
            sql_error: None,
        };
    }
    if str_contains(output, "indexerError") || str_contains(output, "DB::Exception") {
        let msg = extract_error_message(answer);
        return ValidationResult {
            success: false,
            error: Some("SQL transform failed".to_string()),
            sql_error: Some(msg),
            input_field_count: Some(input_field_count),
            output_field_count: None,
            missing_fields: Vec::new(),
        };
    }
    let j = match answer {
        Some(j) => j,
        None => {
            return ValidationResult::success();
        },
    };
    let rows = match j.get("data") {
        Some(d) => d.as_array(),
        None => None,
    };
    let rows = match rows {
        Some(r) => r,
        None => {
            return ValidationResult::success();
        },
    };
    if rows.len() == 0 || !rows[0].is_object_exec() {
        return ValidationResult::success();
    }
    let n = rows[0].object_len_exec();
    let input = input_field_count as u128;
    let out = n as u128;
    let lossy = input > out && 2 * (input - out) > input;
    if lossy {
        let mut e = concat("Catastrophic field loss: ", u64_to_string(input_field_count as u64).as_str());
        append(&mut e, " input fields → ");
        append(&mut e, u64_to_string(n as u64).as_str());
        append(&mut e, " output fields");
        return ValidationResult {
            success: false,
            error: Some(e),
            input_field_count: Some(input_field_count),
            output_field_count: Some(n),
            missing_fields: Vec::new(),
            sql_error: None,
        };
    }
    ValidationResult {
        success: true,
        error: None,
        input_field_count: Some(input_field_count),
        output_field_count: Some(n),
        missing_fields: Vec::new(),
        sql_error: None,
    }
}

/// The SQL of a transform and the sample record it is checked against: the
/// `settings.sql_transform` string and the first record of
/// `settings.sample_data` (the sample itself when it is not an array).
/// `None` when either is missing; then nothing is checked.
pub open spec fn validation_inputs_spec(t: Json) -> Option<(Seq<char>, Json)> {
    let settings = t.get_spec("settings"@);
    let sql = match settings {
        Some(s) => match s.get_spec("sql_transform"@) {
            Some(q) => q.str_spec(),
            None => None,
        },
        None => None,
    };
    let sample = match settings {
        Some(s) => s.get_spec("sample_data"@),
        None => None,
    };
    match (sql, sample) {
        (Some(q), Some(d)) => match d {
            Json::Array(a) => if a@.len() > 0 {
                Some((q, a@[0]))
            } else {
                None
            },
            _ => Some((q, d)),
        },
        _ => None,
    }
}

/// The SQL and the sample record a transform is checked with.
pub fn validation_inputs(transform: &Json) -> (r: Option<(&String, &Json)>)
    ensures
        match r {
            Some((q, d)) => validation_inputs_spec(*transform) == Some((q@, *d)),
            None => validation_inputs_spec(*transform) is None,
        },
{
    let settings = match transform.get("settings") {
        Some(s) => s,
        None => {
            return None;
        },
    };
    let sql = match settings.get("sql_transform") {
        Some(q) => match q.as_str() {
            Some(s) => s,
            None => {
                return None;
            },
        },
        None => {
            return None;
        },
    };
    let sample = match settings.get("sample_data") {
        Some(d) => d,
        None => {
            return None;
        },
    };
    match sample {
        Json::Array(a) => if a.len() > 0 {
            Some((sql, &a[0]))
        } else {
            None
        },
        _ => Some((sql, sample)),
    }
}

/// The base64 payload of a Firehose sample: for a transform whose
/// `settings.format_details.subtype` is `firehose`, the string `data` of the
/// sample's first `records` entry.
pub open spec fn firehose_data_spec(sample: Json, transform: Json) -> Option<Seq<char>> {
    let subtype = match transform.get_spec("settings"@) {
        Some(s) => match s.get_spec("format_details"@) {
            Some(f) => match f.get_spec("subtype"@) {
                Some(t) => t.str_spec(),
                None => None,
            },
            None => None,
        },
        None => None,
    };
    if subtype == Some("firehose"@) {
        match sample.get_spec("records"@) {
            Some(r) => match r.array_spec() {
                Some(a) => if a.len() > 0 {
                    match a[0].get_spec("data"@) {
                        Some(d) => d.str_spec(),
                        None => None,
                    }
                } else {
                    None
                },
                None => None,
            },
            None => None,
        }
    } else {
        None
    }
}

/// The decoded text of a Firehose sample's first record, when the transform
/// reads Firehose data and the record decodes.
pub fn firehose_text(sample: &Json, transform: &Json) -> (r: Option<String>)
    ensures
        match firehose_data_spec(*sample, *transform) {
            Some(d) => match r {
                Some(t) => base64_text_spec(d) == Some(t@),
                None => base64_text_spec(d) is None,
            },
            None => r is None,
        },
{
    let subtype = match transform.get("settings") {
        Some(s) => match s.get("format_details") {
            Some(f) => match f.get("subtype") {
                Some(t) => t.as_str(),
                None => None,
            },
            None => None,
        },
        None => None,
    };
    let is_firehose = match subtype {
        Some(t) => crate::text::str_eq(t.as_str(), "firehose"),
        None => false,
    };
    if !is_firehose {
        return None;
    }
    let data = match sample.get("records") {
        Some(r) => match r.as_array() {
            Some(a) => if a.len() > 0 {
                match a[0].get("data") {
                    Some(d) => d.as_str(),
                    None => None,
                }
            } else {
                None
            },
            None => None,
        },
        None => None,
    };
    match data {
        Some(d) => base64_decode_text(d.as_str()),
        None => None,
    }
}

/// The schema of the memory table and the record loaded into it: the
/// decoded Firehose record (`decoded`, the caller's parse of
/// `firehose_text`) when it is an object, else the sample itself when it is
/// one; `None` otherwise.
pub fn infer_schema_from_sample(sample: &Json, decoded: Option<&Json>) -> (r: Option<(Vec<SchemaColumn>, Json)>)
    ensures
        match decoded {
            Some(d) if d.is_object() => r matches Some((c, f)) && flat_schema(*d) == Some(columns_view(c@)) && f@ == d@,
            _ => if sample.is_object() {
                r matches Some((c, f)) && flat_schema(*sample) == Some(columns_view(c@)) && f@ == sample@
            } else {
                r is None
            },
        },
{
    match decoded {
        Some(d) => {
            if d.is_object_exec() {
                let cols = infer_flat_schema(d).unwrap();
                return Some((cols, copy_json(d)));
            }
        },
        None => {},
    }
    match infer_flat_schema(sample) {
        Some(cols) => Some((cols, copy_json(sample))),
        None => None,
    }
}

} // verus!
