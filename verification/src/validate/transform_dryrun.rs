//! Checking a transform by sending sample data through Hydrolix's dry-run
//! ingest, and by looking for records whose fields ended up unparsed.
//!
//! The requests are the caller's; this module reads what comes back.
use vstd::prelude::*;
use crate::json::{Json, copy_json};
use crate::text::{concat, append, contains, str_contains, byte_len_below, utf8_len, views, decimal, u64_to_string};
use crate::grafana::plugins::{join, join_strings};

verus! {

broadcast use vstd::string::group_string_axioms;

/// What a dry run of a transform found.
pub struct ValidationResult {
    pub success: bool,
    pub error: Option<String>,
    pub has_unknown_data: bool,
    pub unknown_values: Vec<Json>,
}

/// Whether two sequences of values hold the same plain values.
pub open spec fn same_values(a: Seq<Json>, b: Seq<Json>) -> bool {
    &&& a.len() == b.len()
    &&& forall|i: int| 0 <= i < a.len() ==> (#[trigger] a[i])@ == b[i]@
}

impl ValidationResult {
    /// The transform parsed the sample data.
    pub fn success() -> (r: Self)
        ensures
            r.success,
            r.error is None,
            !r.has_unknown_data,
            r.unknown_values@.len() == 0,
    {
        ValidationResult { success: true, error: None, has_unknown_data: false, unknown_values: Vec::new() }
    }

    /// The dry run could not be made or was refused.
    pub fn error(msg: String) -> (r: Self)
        ensures
            !r.success,
            r.error == Some(msg),
            !r.has_unknown_data,
            r.unknown_values@.len() == 0,
    {
        ValidationResult { success: false, error: Some(msg), has_unknown_data: false, unknown_values: Vec::new() }
    }

    /// The transform put data into the catch-all `unknown` column.
    pub fn unknown_data(values: Vec<Json>) -> (r: Self)
        ensures
            !r.success,
            r.error is None,
            r.has_unknown_data,
            r.unknown_values == values,
    {
        ValidationResult { success: false, error: None, has_unknown_data: true, unknown_values: values }
    }
}

/// Whether a value holds anything: `null`, an empty string, an empty object
/// and an empty array hold nothing.
pub open spec fn has_data(v: Json) -> bool {
    match v {
        Json::Null => false,
        Json::Str(s) => s@.len() > 0,
        Json::Object(m) => m@.len() > 0,
        Json::Array(a) => a@.len() > 0,
        _ => true,
    }
}

/// Whether `value` holds anything.
pub fn has_actual_data(value: &Json) -> (b: bool)
    ensures
        b == has_data(*value),
{
    match value {
        Json::Null => false,
        Json::Str(s) => !s.as_str().is_empty(),
        Json::Object(m) => m.len() > 0,
        Json::Array(a) => a.len() > 0,
        _ => true,
    }
}

/// Whether a column description names the `unknown` column.
pub open spec fn names_unknown(c: Json) -> bool {
    match c.get_spec("name"@) {
        Some(n) => n.str_spec() == Some("unknown"@),
        None => false,
    }
}

/// The position of the first `unknown` column among `meta[i..]`.
pub open spec fn unknown_column_from(meta: Seq<Json>, i: int) -> Option<int>
    decreases meta.len() - i,
{
    if i < 0 || i >= meta.len() {
        None
    } else if names_unknown(meta[i]) {
        Some(i)
    } else {
        unknown_column_from(meta, i + 1)
    }
}

/// The cells of column `k` that hold anything, over the rows that are
/// arrays long enough to have one.
pub open spec fn column_values(rows: Seq<Json>, k: int) -> Seq<Json>
    decreases rows.len(),
{
    if rows.len() == 0 {
        Seq::empty()
    } else {
        let rest = column_values(rows.drop_last(), k);
        match rows.last().array_spec() {
            Some(cells) => if 0 <= k < cells.len() && has_data(cells[k]) {
                rest.push(cells[k])
            } else {
                rest
            },
            None => rest,
        }
    }
}

/// The `unknown` members that hold anything, over records given as objects.
pub open spec fn member_values(records: Seq<Json>) -> Seq<Json>
    decreases records.len(),
{
    if records.len() == 0 {
        Seq::empty()
    } else {
        let rest = member_values(records.drop_last());
        match records.last().get_spec("unknown"@) {
            Some(u) => if has_data(u) {
                rest.push(u)
            } else {
                rest
            },
            None => rest,
        }
    }
}

/// The records of a dry-run answer that is not in columnar form: the array
/// itself, the `records` array, or the answer as a single record.
pub open spec fn answer_records(d: Json) -> Seq<Json> {
    match d {
        Json::Array(a) => a@,
        _ => match d.get_spec("records"@) {
            Some(r) => match r.array_spec() {
                Some(a) => a,
                None => Seq::empty(),
            },
            None => if d.is_object() {
                seq![d]
            } else {
                Seq::empty()
            },
        },
    }
}

/// What ended up in the `unknown` column of a dry-run answer. A columnar
/// answer (`data` rows and `meta` columns) is read by the first column named
/// `unknown`, and has none when there is no such column; any other answer is
/// read record by record.
pub open spec fn unknown_values_spec(d: Json) -> Seq<Json> {
    let data = match d.get_spec("data"@) {
        Some(x) => x.array_spec(),
        None => None,
    };
    let meta = match d.get_spec("meta"@) {
        Some(x) => x.array_spec(),
        None => None,
    };
    if data is Some && meta is Some {
        match unknown_column_from(meta->0, 0) {
            Some(k) => column_values(data->0, k),
            None => Seq::empty(),
        }
    } else {
        member_values(answer_records(d))
    }
}

fn unknown_column(meta: &Vec<Json>) -> (r: Option<usize>)
    ensures
        match r {
            Some(k) => unknown_column_from(meta@, 0) == Some(k as int),
            None => unknown_column_from(meta@, 0) is None,
        },
{
    let mut i: usize = 0;
    while i < meta.len()
        invariant
            i <= meta@.len(),
            unknown_column_from(meta@, 0) == unknown_column_from(meta@, i as int),
        decreases meta.len() - i,
    {
        let mut hit = false;
        match meta[i].get("name") {
            Some(n) => match n.as_str() {
                Some(s) => {
                    hit = crate::text::str_eq(s.as_str(), "unknown");
                },
                None => {},
            },
            None => {},
        }
        if hit {
            return Some(i);
        }
        i = i + 1;
    }
    None
}

fn collect_column(rows: &Vec<Json>, k: usize) -> (r: Vec<Json>)
    ensures
        same_values(r@, column_values(rows@, k as int)),
{
    let mut out: Vec<Json> = Vec::new();
    let mut i: usize = 0;
    while i < rows.len()
        invariant
            i <= rows@.len(),
            same_values(out@, column_values(rows@.take(i as int), k as int)),
        decreases rows.len() - i,
    {
        assert(rows@.take(i + 1).drop_last() =~= rows@.take(i as int));
        assert(rows@.take(i + 1).last() == rows@[i as int]);
        match rows[i].as_array() {
            Some(cells) => {
                if k < cells.len() && has_actual_data(&cells[k]) {
                    out.push(copy_json(&cells[k]));
                }
            },
            None => {},
        }
        i = i + 1;
    }
    assert(rows@.take(rows@.len() as int) =~= rows@);
    out
}

fn collect_members(records: &Vec<Json>) -> (r: Vec<Json>)
    ensures
        same_values(r@, member_values(records@)),
{
    let mut out: Vec<Json> = Vec::new();
    let mut i: usize = 0;
    while i < records.len()
        invariant
            i <= records@.len(),
            same_values(out@, member_values(records@.take(i as int))),
        decreases records.len() - i,
    {
        assert(records@.take(i + 1).drop_last() =~= records@.take(i as int));
        assert(records@.take(i + 1).last() == records@[i as int]);
        match records[i].get("unknown") {
            Some(u) => {
                if has_actual_data(u) {
                    out.push(copy_json(u));
                }
            },
            None => {},
        }
        i = i + 1;
    }
    assert(records@.take(records@.len() as int) =~= records@);
    out
}

/// What ended up in the `unknown` column of a dry-run answer.
pub fn check_for_unknown_data(data: &Json) -> (r: Vec<Json>)
    ensures
        same_values(r@, unknown_values_spec(*data)),
{
    let rows = match data.get("data") {
        Some(x) => x.as_array(),
        None => None,
    };
    let meta = match data.get("meta") {
        Some(x) => x.as_array(),
        None => None,
    };
    if rows.is_some() && meta.is_some() {
        let rows = rows.unwrap();
        let meta = meta.unwrap();
        return match unknown_column(meta) {
            Some(k) => collect_column(rows, k),
            None => Vec::new(),
        };
    }
    match data {
        Json::Array(a) => {
            assert(data.get_spec("data"@) is None);
            assert(answer_records(*data) == a@);
            assert(unknown_values_spec(*data) == member_values(a@));
            let r = collect_members(a);
            assert(same_values(r@, member_values(a@)));
            assert(same_values(r@, unknown_values_spec(*data)));
            return r;
        },
        _ => {},
    }
    match data.get("records") {
        Some(rec) => {
            match rec.as_array() {
                Some(a) => {
                    let r = collect_members(a);
                    assert(same_values(r@, unknown_values_spec(*data)));
                    return r;
                },
                None => {
                    let out: Vec<Json> = Vec::new();
                    assert(member_values(Seq::<Json>::empty()) =~= Seq::<Json>::empty());
                    assert(same_values(out@, unknown_values_spec(*data)));
                    return out;
                },
            }
        },
        None => {},
    }
    let mut out: Vec<Json> = Vec::new();
    if data.is_object_exec() {
        let ghost one = seq![*data];
        proof {
            assert(one.drop_last() =~= Seq::<Json>::empty());
            assert(one.last() == *data);
            assert(answer_records(*data) == one);
            assert(member_values(Seq::<Json>::empty()) =~= Seq::<Json>::empty());
            assert(unknown_values_spec(*data) == member_values(one));
        }
        match data.get("unknown") {
            Some(u) => {
                if has_actual_data(u) {
                    out.push(copy_json(u));
                }
            },
            None => {},
        }
        assert(same_values(out@, unknown_values_spec(*data)));
    } else {
        assert(member_values(Seq::<Json>::empty()) =~= Seq::<Json>::empty());
        assert(same_values(out@, unknown_values_spec(*data)));
    }
    out
}

/// The body sent to the dry-run endpoint: the sample data when it is an
/// array, else an array holding it.
pub fn dryrun_payload(sample_data: &Json) -> (r: Json)
    ensures
        match *sample_data {
            Json::Array(_) => r@ == sample_data@,
            _ => r is Array && r->Array_0@.len() == 1 && r->Array_0@[0]@ == sample_data@,
        },
{
    if sample_data.is_array() {
        copy_json(sample_data)
    } else {
        let one = vec![copy_json(sample_data)];
        Json::Array(one)
    }
}

/// The result of a dry run whose request failed with an HTTP status.
pub fn http_failure_result(status: &str, body: &str) -> (r: ValidationResult)
    ensures
        !r.success,
        !r.has_unknown_data,
        r.unknown_values@.len() == 0,
        (r.error matches Some(e) && e@ == "HTTP "@ + status@ + ": "@ + body@),
{
    let mut e = concat("HTTP ", status);
    append(&mut e, ": ");
    append(&mut e, body);
    ValidationResult::error(e)
}

/// The result of a dry run from its answer: an answer that is not JSON
/// (`None`) passes, as does one with nothing in its `unknown` column.
pub fn result_from_answer(answer: Option<&Json>) -> (r: ValidationResult)
    ensures
        r.error is None,
        match answer {
            None => r.success && !r.has_unknown_data && r.unknown_values@.len() == 0,
            Some(d) => {
                &&& r.success == (unknown_values_spec(*d).len() == 0)
                &&& r.has_unknown_data == (unknown_values_spec(*d).len() > 0)
                &&& r.has_unknown_data ==> same_values(r.unknown_values@, unknown_values_spec(*d))
                &&& !r.has_unknown_data ==> r.unknown_values@.len() == 0
            },
        },
{
    match answer {
        None => ValidationResult::success(),
        Some(d) => {
            let found = check_for_unknown_data(d);
            if found.len() > 0 {
                ValidationResult::unknown_data(found)
            } else {
                ValidationResult::success()
            }
        },
    }
}

/// Whether a dry run is tried again: only while the transform is not known
/// to the cluster yet, and attempts are left.
pub fn should_retry(result: &ValidationResult, attempt: u32, max_retries: u32) -> (b: bool)
    ensures
        b == (!result.success && !result.has_unknown_data && attempt < max_retries
            && (result.error matches Some(e) && contains(e@, "unknown transform"@))),
{
    if result.success || result.has_unknown_data || attempt >= max_retries {
        return false;
    }
    match &result.error {
        Some(e) => str_contains(e.as_str(), "unknown transform"),
        None => false,
    }
}

/// The result when no attempt was made.
pub fn no_attempt_result() -> (r: ValidationResult)
    ensures
        !r.success,
        !r.has_unknown_data,
        r.unknown_values@.len() == 0,
        (r.error matches Some(e) && e@ == "Validation failed after retries"@),
{
    ValidationResult::error("Validation failed after retries".to_string())
}

pub open spec fn dryrun_failure_message(path: Seq<char>, name: Seq<char>, error: Seq<char>) -> Seq<char> {
    "Transform validation failed for "@ + path + ":\n  Transform: "@ + name + "\n  Error: "@ + error
        + "\n\n  This usually indicates:\n    • Sample data doesn't match input schema\n    • SQL transform has syntax errors\n    • Type conversion issues in the transform\n    • Missing or incorrect column definitions"@
}

pub open spec fn unknown_column_message(path: Seq<char>, name: Seq<char>, samples: Seq<char>) -> Seq<char> {
    "Transform validation failed for "@ + path + ":\n  Transform: "@ + name
        + "\n  Issue: 'unknown' column contains data\n  Sample values: "@ + samples
        + "\n\n  This indicates the transform is not parsing data correctly.\n  Data is being dumped into the catch-all 'unknown' column.\n\n  Common causes:\n    • Input schema doesn't match actual data structure\n    • SQL transform missing fields\n    • Field extraction/parsing logic incorrect\n    • Column mappings misaligned"@
}

/// The first `n` texts (all of them when there are fewer).
pub open spec fn first_n(v: Seq<Seq<char>>, n: int) -> Seq<Seq<char>> {
    if v.len() <= n {
        v
    } else {
        v.take(n)
    }
}

/// What a dry run means for the transform that was created: a failed or
/// refused dry run, and one that put data into the `unknown` column, fail the
/// check in strict mode and only warn otherwise. `sample_texts` holds the
/// JSON text of the result's unknown values, in order.
pub fn creation_verdict(
    result: &ValidationResult,
    transform_path: &str,
    transform_name: &str,
    sample_texts: &Vec<String>,
    strict_mode: bool,
) -> (r: Result<(), String>)
    ensures
        r is Ok <==> (!strict_mode || (result.success && !result.has_unknown_data)),
        match r {
            Ok(()) => true,
            Err(e) => if !result.has_unknown_data {
                e@ == dryrun_failure_message(transform_path@, transform_name@,
                    match result.error {
                        Some(m) => m@,
                        None => "Unknown error"@,
                    })
            } else {
                e@ == unknown_column_message(transform_path@, transform_name@,
                    join(first_n(views(sample_texts@), 3), ", "@))
            },
        },
{
    if !result.success && !result.has_unknown_data {
        if !strict_mode {
            return Ok(());
        }
        let error = match &result.error {
            Some(m) => m.as_str(),
            None => "Unknown error",
        };
        let mut e = concat("Transform validation failed for ", transform_path);
        append(&mut e, ":\n  Transform: ");
        append(&mut e, transform_name);
        append(&mut e, "\n  Error: ");
        append(&mut e, error);
        append(&mut e, "\n\n  This usually indicates:\n    • Sample data doesn't match input schema\n    • SQL transform has syntax errors\n    • Type conversion issues in the transform\n    • Missing or incorrect column definitions");
        return Err(e);
    }
    if result.has_unknown_data {
        if !strict_mode {
            return Ok(());
        }
        let mut firsts: Vec<String> = Vec::new();
        let mut i: usize = 0;
        while i < sample_texts.len() && i < 3
            invariant
                i <= sample_texts@.len(),
                i <= 3,
                firsts@.len() == i,
                views(firsts@) =~= views(sample_texts@).take(i as int),
            decreases sample_texts.len() - i,
        {
            let t = sample_texts[i].clone();
            proof {
                assert(t@ == sample_texts@[i as int]@);
            }
            let ghost before = firsts@;
            firsts.push(t);
            proof {
                assert forall|k: int| 0 <= k < i + 1 implies views(firsts@)[k] == views(sample_texts@)[k] by {
                    if k < i {
                        assert(firsts@[k] == before[k]);
                        assert(views(before)[k] == views(sample_texts@).take(i as int)[k]);
                    }
                }
            }
            assert(views(firsts@) =~= views(sample_texts@).take(i + 1));
            i = i + 1;
        }
        proof {
            if i == sample_texts@.len() {
                assert(views(sample_texts@).take(i as int) =~= views(sample_texts@));
            }
        }
        assert(views(firsts@) =~= first_n(views(sample_texts@), 3));
        let samples = join_strings(&firsts, ", ");
        let mut e = concat("Transform validation failed for ", transform_path);
        append(&mut e, ":\n  Transform: ");
        append(&mut e, transform_name);
        append(&mut e, "\n  Issue: 'unknown' column contains data\n  Sample values: ");
        append(&mut e, samples.as_str());
        append(&mut e, "\n\n  This indicates the transform is not parsing data correctly.\n  Data is being dumped into the catch-all 'unknown' column.\n\n  Common causes:\n    • Input schema doesn't match actual data structure\n    • SQL transform missing fields\n    • Field extraction/parsing logic incorrect\n    • Column mappings misaligned");
        return Err(e);
    }
    Ok(())
}

/// What the records with unknown data say of the transforms: how many show
/// a catastrophic failure (raw unparsed data), how many only have unmapped
/// fields, and the catastrophic ones per transform, in the order in which
/// the transforms first show up.
pub struct UnknownDataAnalysis {
    pub catastrophic_count: usize,
    pub minor_count: usize,
    pub catastrophic_by_transform: Vec<(String, usize)>,
}

/// Strings longer than this many bytes in `unknown` are taken for raw data.
pub const LARGE_STRING_THRESHOLD: usize = 150;

/// Whether the members of an `unknown` map show raw unparsed data: a string
/// under `data`, or a string of more than the threshold's bytes.
pub open spec fn is_catastrophic(m: Seq<(String, Json)>) -> bool {
    (match crate::json::assoc(m, "data"@) {
        Some(Json::Str(_)) => true,
        _ => false,
    }) || exists|i: int| 0 <= i < m.len() && (#[trigger] m[i]).1 is Str && utf8_len(m[i].1->Str_0@) > 150
}

/// How a record counts: not at all (`None`: no `unknown` object, or an empty
/// one), as catastrophic (`Some(true)`), or as minor (`Some(false)`).
pub open spec fn record_class(row: Json) -> Option<bool> {
    match row.get_spec("unknown"@) {
        Some(Json::Object(m)) => if m@.len() == 0 {
            None
        } else {
            Some(is_catastrophic(m@))
        },
        _ => None,
    }
}

/// The transform that wrote a record (`unknown` when the record does not
/// say).
pub open spec fn transform_of(row: Json) -> Seq<char> {
    match row.get_spec("hdx_transform"@) {
        Some(v) => match v.str_spec() {
            Some(s) => s,
            None => "unknown"@,
        },
        None => "unknown"@,
    }
}

pub open spec fn class_total(rows: Seq<Json>, class: bool) -> nat
    decreases rows.len(),
{
    if rows.len() == 0 {
        0
    } else {
        class_total(rows.drop_last(), class) + if record_class(rows.last()) == Some(class) {
            1nat
        } else {
            0nat
        }
    }
}

/// The first position of `name` in a tally, from `i` on.
pub open spec fn find_name(t: Seq<(Seq<char>, nat)>, name: Seq<char>, i: int) -> Option<int>
    decreases t.len() - i,
{
    if i < 0 || i >= t.len() {
        None
    } else if t[i].0 == name {
        Some(i)
    } else {
        find_name(t, name, i + 1)
    }
}

/// A tally with one more for `name`.
pub open spec fn bump(t: Seq<(Seq<char>, nat)>, name: Seq<char>) -> Seq<(Seq<char>, nat)> {
    match find_name(t, name, 0) {
        Some(k) => t.update(k, (name, t[k].1 + 1)),
        None => t.push((name, 1nat)),
    }
}

/// The catastrophic records per transform.
pub open spec fn tally(rows: Seq<Json>) -> Seq<(Seq<char>, nat)>
    decreases rows.len(),
{
    if rows.len() == 0 {
        Seq::empty()
    } else if record_class(rows.last()) == Some(true) {
        bump(tally(rows.drop_last()), transform_of(rows.last()))
    } else {
        tally(rows.drop_last())
    }
}

pub open spec fn tally_view(v: Seq<(String, usize)>) -> Seq<(Seq<char>, nat)> {
    Seq::new(v.len(), |i: int| (v[i].0@, v[i].1 as nat))
}

fn member_is_catastrophic(m: &Vec<(String, Json)>) -> (b: bool)
    ensures
        b == is_catastrophic(m@),
{
    let mut found_data = false;
    let mut i: usize = 0;
    let mut first: Option<usize> = None;
    assert(m@.skip(0) =~= m@);
    while i < m.len()
        invariant
            i <= m@.len(),
            crate::json::assoc(m@, "data"@) == crate::json::assoc(m@.skip(i as int), "data"@) || first is Some,
            first matches Some(k) ==> k < m@.len() && crate::json::assoc(m@, "data"@) == Some(m@[k as int].1),
        decreases m.len() - i,
    {
        assert(m@.skip(i as int)[0] == m@[i as int]);
        assert(m@.skip(i as int).skip(1) =~= m@.skip(i + 1));
        if first.is_none() && crate::text::str_eq(m[i].0.as_str(), "data") {
            first = Some(i);
        }
        i = i + 1;
    }
    proof {
        if first is None {
            assert(m@.skip(m@.len() as int) =~= Seq::<(String, Json)>::empty());
        }
    }
    match first {
        Some(k) => {
            match &m[k].1 {
                Json::Str(_) => {
                    found_data = true;
                },
                _ => {},
            }
        },
        None => {},
    }
    if found_data {
        return true;
    }
    let mut j: usize = 0;
    while j < m.len()
        invariant
            j <= m@.len(),
            forall|q: int| 0 <= q < j ==> !((#[trigger] m@[q]).1 is Str && utf8_len(m@[q].1->Str_0@) > 150),
        decreases m.len() - j,
    {
        match &m[j].1 {
            Json::Str(s) => {
                if !byte_len_below(s.as_str(), 151) {
                    return true;
                }
            },
            _ => {},
        }
        j = j + 1;
    }
    false
}

proof fn lemma_find_name_range(t: Seq<(Seq<char>, nat)>, name: Seq<char>, i: int)
    ensures
        find_name(t, name, i) matches Some(k) ==> i <= k < t.len() && t[k].0 == name,
    decreases t.len() - i,
{
    if 0 <= i < t.len() && t[i].0 != name {
        lemma_find_name_range(t, name, i + 1);
    }
}

fn name_position(t: &Vec<(String, usize)>, name: &str) -> (r: Option<usize>)
    ensures
        match r {
            Some(k) => find_name(tally_view(t@), name@, 0) == Some(k as int) && k < t@.len(),
            None => find_name(tally_view(t@), name@, 0) is None,
        },
{
    let mut i: usize = 0;
    while i < t.len()
        invariant
            i <= t@.len(),
            find_name(tally_view(t@), name@, 0) == find_name(tally_view(t@), name@, i as int),
        decreases t.len() - i,
    {
        if crate::text::str_eq(t[i].0.as_str(), name) {
            return Some(i);
        }
        i = i + 1;
    }
    None
}

/// Sorts the records with unknown data into catastrophic and minor ones.
pub fn analyze_unknown_data(data: &Vec<Json>) -> (r: UnknownDataAnalysis)
    ensures
        r.catastrophic_count == class_total(data@, true),
        r.minor_count == class_total(data@, false),
        tally_view(r.catastrophic_by_transform@) == tally(data@),
{
    let mut catastrophic_count: usize = 0;
    let mut minor_count: usize = 0;
    let mut by_transform: Vec<(String, usize)> = Vec::new();
    let mut i: usize = 0;
    while i < data.len()
        invariant
            i <= data@.len(),
            catastrophic_count == class_total(data@.take(i as int), true),
            minor_count == class_total(data@.take(i as int), false),
            catastrophic_count + minor_count <= i,
            tally_view(by_transform@) == tally(data@.take(i as int)),
            forall|k: int| 0 <= k < by_transform@.len() ==> (#[trigger] by_transform@[k]).1 <= i,
        decreases data.len() - i,
    {
        let row = &data[i];
        assert(data@.take(i + 1).drop_last() =~= data@.take(i as int));
        assert(data@.take(i + 1).last() == data@[i as int]);
        let name: &str = match row.get("hdx_transform") {
            Some(v) => match v.as_str() {
                Some(s) => s.as_str(),
                None => "unknown",
            },
            None => "unknown",
        };
        assert(name@ == transform_of(*row));
        let class: Option<bool> = match row.get("unknown") {
            Some(Json::Object(m)) => if m.len() == 0 {
                None
            } else {
                Some(member_is_catastrophic(m))
            },
            _ => None,
        };
        assert(class == record_class(*row));
        match class {
            Some(true) => {
                catastrophic_count = catastrophic_count + 1;
                let ghost before = tally_view(by_transform@);
                match name_position(&by_transform, name) {
                    Some(k) => {
                        proof {
                            lemma_find_name_range(before, name@, 0);
                        }
                        let n = by_transform[k].1;
                        let owned = by_transform[k].0.clone();
                        by_transform.set(k, (owned, n + 1));
                        assert(tally_view(by_transform@) =~= bump(before, name@));
                    },
                    None => {
                        by_transform.push((name.to_string(), 1));
                        assert(tally_view(by_transform@) =~= bump(before, name@));
                    },
                }
            },
            Some(false) => {
                minor_count = minor_count + 1;
            },
            None => {},
        }
        i = i + 1;
    }
    assert(data@.take(data@.len() as int) =~= data@);
    UnknownDataAnalysis { catastrophic_count, minor_count, catastrophic_by_transform: by_transform }
}

/// The query for the records of a table whose `unknown` map is not empty.
pub fn unknown_rows_sql(project_name: &str, table_name: &str) -> (r: String)
    ensures
        r@ == "SELECT hdx_transform, unknown FROM "@ + project_name@ + "."@ + table_name@
            + " WHERE mapKeys(unknown) != [] LIMIT 100 FORMAT JSON"@,
{
    let mut r = concat("SELECT hdx_transform, unknown FROM ", project_name);
    append(&mut r, ".");
    append(&mut r, table_name);
    append(&mut r, " WHERE mapKeys(unknown) != [] LIMIT 100 FORMAT JSON");
    r
}

/// The query that tells whether a table can be queried at all.
pub fn queryable_sql(project_name: &str, table_name: &str) -> (r: String)
    ensures
        r@ == "SELECT 1 FROM "@ + project_name@ + "."@ + table_name@ + " LIMIT 1 FORMAT JSON"@,
{
    let mut r = concat("SELECT 1 FROM ", project_name);
    append(&mut r, ".");
    append(&mut r, table_name);
    append(&mut r, " LIMIT 1 FORMAT JSON");
    r
}

/// Whether a table counts as queryable after its probe query was refused
/// with `error_text`: only a missing query pool makes it not.
pub fn queryable_from_error_text(error_text: &str) -> (b: bool)
    ensures
        b == (!contains(error_text@, "Pool name"@) && !contains(error_text@, "does not exist"@)),
{
    !str_contains(error_text, "Pool name") && !str_contains(error_text, "does not exist")
}

pub open spec fn tally_names(t: Seq<(Seq<char>, nat)>) -> Seq<Seq<char>> {
    t.map_values(|p: (Seq<char>, nat)| p.0)
}

pub open spec fn catastrophe_message(path: Seq<char>, name: Seq<char>, count: nat, names: Seq<char>) -> Seq<char> {
    "Transform validation WARNING for "@ + path + ":\n  Transform: "@ + name
        + "\n  Issue: CATASTROPHIC FAILURES detected in table\n  Found "@ + decimal(count)
        + " record(s) with raw unparsed data\n  Broken transforms: "@ + names
        + "\n\n  This indicates one or more transforms are completely broken:\n    • Input format/schema is incorrect\n    • Delimiter settings are wrong\n    • Parsing logic is not executing\n    • Data is being dumped as raw string instead of parsed fields"@
}

/// The records of a query answer, when it has a `data` array.
pub open spec fn answer_rows(answer: Json) -> Option<Seq<Json>> {
    match answer.get_spec("data"@) {
        Some(d) => d.array_spec(),
        None => None,
    }
}

/// What the records with unknown data in a table mean for a transform: in
/// strict mode, any catastrophic record fails the check; everything else
/// passes.
pub fn querying_verdict(answer: &Json, transform_path: &str, transform_name: &str, strict_mode: bool) -> (r: Result<(), String>)
    ensures
        r is Err <==> (strict_mode && (answer_rows(*answer) matches Some(rows) && class_total(rows, true) > 0)),
        match r {
            Ok(()) => true,
            Err(e) => (answer_rows(*answer) matches Some(rows) && e@ == catastrophe_message(
                transform_path@, transform_name@, class_total(rows, true),
                join(tally_names(tally(rows)), ", "@))),
        },
{
    let rows = match answer.get("data") {
        Some(d) => d.as_array(),
        None => None,
    };
    let rows = match rows {
        Some(r) => r,
        None => {
            return Ok(());
        },
    };
    if rows.len() == 0 {
        assert(class_total(rows@, true) == 0);
        return Ok(());
    }
    let analysis = analyze_unknown_data(rows);
    if analysis.catastrophic_count > 0 && strict_mode {
        let mut names: Vec<String> = Vec::new();
        let mut i: usize = 0;
        while i < analysis.catastrophic_by_transform.len()
            invariant
                i <= analysis.catastrophic_by_transform@.len(),
                names@.len() == i,
                views(names@) =~= tally_names(tally_view(analysis.catastrophic_by_transform@)).take(i as int),
            decreases analysis.catastrophic_by_transform.len() - i,
        {
            let t = analysis.catastrophic_by_transform[i].0.clone();
            let ghost before = names@;
            names.push(t);
            proof {
                let tv = tally_names(tally_view(analysis.catastrophic_by_transform@));
                assert forall|k: int| 0 <= k < i + 1 implies views(names@)[k] == tv[k] by {
                    if k < i {
                        assert(names@[k] == before[k]);
                        assert(views(before)[k] == tv.take(i as int)[k]);
                    }
                }
            }
            assert(views(names@) =~= tally_names(tally_view(analysis.catastrophic_by_transform@)).take(i + 1));
            i = i + 1;
        }
        assert(views(names@) =~= tally_names(tally(rows@)));
        let joined = join_strings(&names, ", ");
        let count = u64_to_string(analysis.catastrophic_count as u64);
        let mut e = concat("Transform validation WARNING for ", transform_path);
        append(&mut e, ":\n  Transform: ");
        append(&mut e, transform_name);
        append(&mut e, "\n  Issue: CATASTROPHIC FAILURES detected in table\n  Found ");
        append(&mut e, count.as_str());
        append(&mut e, " record(s) with raw unparsed data\n  Broken transforms: ");
        append(&mut e, joined.as_str());
        append(&mut e, "\n\n  This indicates one or more transforms are completely broken:\n    • Input format/schema is incorrect\n    • Delimiter settings are wrong\n    • Parsing logic is not executing\n    • Data is being dumped as raw string instead of parsed fields");
        assert(e@ =~= catastrophe_message(transform_path@, transform_name@, class_total(rows@, true),
            join(tally_names(tally(rows@)), ", "@)));
        return Err(e);
    }
    Ok(())
}

} // verus!
