//! The Raw Logs dashboard must query the base table's primary timestamp
//! column.
use vstd::prelude::*;
use crate::grafana::plugins::{join, join_strings};
use crate::json::Json;
use crate::models::bundle::Bundle;
use crate::text::{append, concat, contains, str_contains, str_eq, views};

verus! {

broadcast use vstd::string::group_string_axioms;

/// The transform file that names the primary timestamp: the first
/// transform of the first table, under `base`.
pub open spec fn first_transform_path_spec(base: Seq<char>, b: Bundle) -> Result<Seq<char>, Seq<char>> {
    if b.tables@.len() == 0 {
        Err("No tables defined in bundle"@)
    } else if b.tables@[0].transforms@.len() == 0 {
        Err("No transforms defined for first table"@)
    } else {
        Ok(base + "/"@ + b.tables@[0].transforms@[0].path@)
    }
}

/// The path of the transform file that names the primary timestamp.
pub fn first_transform_path(base: &str, b: &Bundle) -> (r: Result<String, String>)
    ensures
        match r {
            Ok(p) => first_transform_path_spec(base@, *b) == Ok::<Seq<char>, Seq<char>>(p@),
            Err(e) => first_transform_path_spec(base@, *b) == Err::<Seq<char>, Seq<char>>(e@),
        },
{
    if b.tables.len() == 0 {
        return Err("No tables defined in bundle".to_string());
    }
    if b.tables[0].transforms.len() == 0 {
        return Err("No transforms defined for first table".to_string());
    }
    let head = concat(base, "/");
    Ok(concat(head.as_str(), b.tables[0].transforms[0].path.as_str()))
}

/// Whether an output column is marked primary: its `datatype` is an object
/// with `primary` true.
pub open spec fn is_primary_column(col: Json) -> bool {
    let dt = col.at("datatype"@);
    dt.is_object() && dt.get_spec("primary"@) is Some && dt.get_spec("primary"@)->Some_0.bool_spec() == Some(true)
}

/// The name of the first primary output column that has a string name.
pub open spec fn primary_column_in(cols: Seq<Json>) -> Option<Seq<char>>
    decreases cols.len(),
{
    if cols.len() == 0 {
        None
    } else if is_primary_column(cols[0]) && cols[0].at("name"@).str_spec() is Some {
        cols[0].at("name"@).str_spec()
    } else {
        primary_column_in(cols.skip(1))
    }
}

/// The primary timestamp column of a transform: the first output column
/// (under `settings.output_columns`) whose datatype is marked primary.
pub open spec fn primary_timestamp_spec(transform: Json) -> Option<Seq<char>> {
    match transform.at("settings"@).at("output_columns"@).array_spec() {
        Some(cols) => primary_column_in(cols),
        None => None,
    }
}

/// `value[key]`: the member, or `Null` when there is none.
pub fn at<'a>(v: &'a Json, key: &str) -> (r: &'a Json)
    ensures
        *r == v.at(key@),
{
    match v.get(key) {
        Some(x) => x,
        None => &Json::Null,
    }
}

/// Finds the primary timestamp column of a transform.
pub fn primary_timestamp_column(transform: &Json) -> (r: Option<String>)
    ensures
        match r {
            Some(n) => primary_timestamp_spec(*transform) == Some(n@),
            None => primary_timestamp_spec(*transform) is None,
        },
{
    let cols_v = at(at(transform, "settings"), "output_columns");
    match cols_v.as_array() {
        Some(cols) => {
            let mut i: usize = 0;
            assert(cols@.skip(0) =~= cols@);
            while i < cols.len()
                invariant
                    i <= cols@.len(),
                    primary_timestamp_spec(*transform) == primary_column_in(cols@.skip(i as int)),
                decreases cols.len() - i,
            {
                assert(cols@.skip(i as int)[0] == cols@[i as int]);
                assert(cols@.skip(i as int).skip(1) =~= cols@.skip(i + 1));
                let col = &cols[i];
                let dt = at(col, "datatype");
                if dt.is_object_exec() {
                    match dt.get("primary") {
                        Some(p) => {
                            if p.as_bool() == Some(true) {
                                match at(col, "name").as_str() {
                                    Some(n) => {
                                        return Some(n.clone());
                                    },
                                    None => {},
                                }
                            }
                        },
                        None => {},
                    }
                }
                i = i + 1;
            }
            None
        },
        None => None,
    }
}

/// The error when a transform names no primary column.
pub open spec fn no_primary_message(path: Seq<char>) -> Seq<char> {
    "No primary timestamp column found in transform "@ + path
}

/// The primary timestamp column, or the error that names the transform.
pub fn primary_timestamp_or_error(transform: &Json, transform_path: &str) -> (r: Result<String, String>)
    ensures
        match r {
            Ok(n) => primary_timestamp_spec(*transform) == Some(n@),
            Err(e) => primary_timestamp_spec(*transform) is None && e@ == no_primary_message(transform_path@),
        },
{
    match primary_timestamp_column(transform) {
        Some(n) => Ok(n),
        None => Err(concat("No primary timestamp column found in transform ", transform_path)),
    }
}

/// The clauses of the Raw Logs dashboard that use the column `timestamp`,
/// described in the order WHERE, ORDER BY, time filter.
pub open spec fn timestamp_refs(dashboard: Seq<char>) -> Seq<Seq<char>> {
    let a = if contains(dashboard, "WHERE timestamp"@) {
        seq!["WHERE clause"@]
    } else {
        Seq::empty()
    };
    let b = if contains(dashboard, "ORDER BY timestamp"@) {
        a.push("ORDER BY clause"@)
    } else {
        a
    };
    if contains(dashboard, "$__timeFilter(timestamp)"@) {
        b.push("Grafana time filter"@)
    } else {
        b
    }
}

/// Whether the dashboard queries the primary column in a WHERE, ORDER BY or
/// time filter.
pub open spec fn uses_primary(dashboard: Seq<char>, primary: Seq<char>) -> bool {
    contains(dashboard, "WHERE "@ + primary) || contains(dashboard, "ORDER BY "@ + primary)
        || contains(dashboard, "$__timeFilter("@ + primary + ")"@)
}

pub open spec fn wrong_column_message(refs: Seq<Seq<char>>, primary: Seq<char>) -> Seq<char> {
    "Raw Logs dashboard uses 'timestamp' in "@ + join(refs, ", "@)
        + " but base table primary timestamp column is '"@ + primary
        + "'.\n  Update the Raw Logs dashboard to use '"@ + primary + "' instead of 'timestamp'."@
}

/// Checks the Raw Logs dashboard against the primary timestamp column: it
/// fails when the dashboard queries `timestamp` and the column has another
/// name. On success it tells whether the dashboard queries the column.
pub fn check_raw_logs(dashboard_json: &str, primary_timestamp: &str) -> (r: Result<bool, String>)
    ensures
        match r {
            Ok(found) => (timestamp_refs(dashboard_json@).len() == 0 || primary_timestamp@ == "timestamp"@)
                && found == uses_primary(dashboard_json@, primary_timestamp@),
            Err(e) => timestamp_refs(dashboard_json@).len() > 0 && primary_timestamp@ != "timestamp"@
                && e@ == wrong_column_message(timestamp_refs(dashboard_json@), primary_timestamp@),
        },
{
    let mut found: Vec<String> = Vec::new();
    if str_contains(dashboard_json, "WHERE timestamp") {
        found.push("WHERE clause".to_string());
    }
    if str_contains(dashboard_json, "ORDER BY timestamp") {
        found.push("ORDER BY clause".to_string());
    }
    if str_contains(dashboard_json, "$__timeFilter(timestamp)") {
        found.push("Grafana time filter".to_string());
    }
    assert(views(found@) =~= timestamp_refs(dashboard_json@));
    if found.len() > 0 && !str_eq(primary_timestamp, "timestamp") {
        let mut e = "Raw Logs dashboard uses 'timestamp' in ".to_string();
        let j = join_strings(&found, ", ");
        append(&mut e, j.as_str());
        append(&mut e, " but base table primary timestamp column is '");
        append(&mut e, primary_timestamp);
        append(&mut e, "'.\n  Update the Raw Logs dashboard to use '");
        append(&mut e, primary_timestamp);
        append(&mut e, "' instead of 'timestamp'.");
        assert(e@ =~= wrong_column_message(timestamp_refs(dashboard_json@), primary_timestamp@));
        return Err(e);
    }
    let w = concat("WHERE ", primary_timestamp);
    let o = concat("ORDER BY ", primary_timestamp);
    let f0 = concat("$__timeFilter(", primary_timestamp);
    let f = concat(f0.as_str(), ")");
    let found_correct = str_contains(dashboard_json, w.as_str()) || str_contains(dashboard_json, o.as_str())
        || str_contains(dashboard_json, f.as_str());
    Ok(found_correct)
}

} // verus!
