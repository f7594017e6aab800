//! Diagnosing a deployment whose table received no rows: the primary
//! timestamp of the sample data, and the fields that the transform needs.
use vstd::prelude::*;
use crate::ext::{datetime_epoch, datetime_epoch_spec, debug_strings, debug_strings_spec};
use crate::json::{copy_json, json_view, Json, JsonV, NumberV};
use crate::text::{
    append, chars_of, concat, decimal, parse_u64, parse_u64_exec, starts_with, str_eq, str_trim,
    string_of, trim, u64_to_string, views,
};
use crate::grafana::plugins::{join, join_strings};

verus! {

broadcast use vstd::string::group_string_axioms;

// ---------------------------------------------------------------------------
// Go time layouts
// ---------------------------------------------------------------------------

/// A Go layout translated token by token into a chrono format (`2006` to
/// `%Y`, `01` to `%m`, `02` to `%d`, `15` to `%H`, `04` to `%M`, `05` to `%S`,
/// any other character kept), with whether any token was seen.
pub open spec fn go_layout(s: Seq<char>) -> (Seq<char>, bool)
    decreases s.len(),
{
    if s.len() == 0 {
        (Seq::empty(), false)
    } else if starts_with(s, seq!['2', '0', '0', '6']) {
        ("%Y"@ + go_layout(s.skip(4)).0, true)
    } else if starts_with(s, seq!['0', '1']) {
        ("%m"@ + go_layout(s.skip(2)).0, true)
    } else if starts_with(s, seq!['0', '2']) {
        ("%d"@ + go_layout(s.skip(2)).0, true)
    } else if starts_with(s, seq!['1', '5']) {
        ("%H"@ + go_layout(s.skip(2)).0, true)
    } else if starts_with(s, seq!['0', '4']) {
        ("%M"@ + go_layout(s.skip(2)).0, true)
    } else if starts_with(s, seq!['0', '5']) {
        ("%S"@ + go_layout(s.skip(2)).0, true)
    } else {
        (seq![s[0]] + go_layout(s.skip(1)).0, go_layout(s.skip(1)).1)
    }
}

/// The chrono format of a Go layout, or `None` when the layout has no Go
/// date or time token.
pub open spec fn go_layout_spec(fmt: Seq<char>) -> Option<Seq<char>> {
    if go_layout(fmt).1 {
        Some(go_layout(fmt).0)
    } else {
        None
    }
}

pub(crate) fn occurs(s: &[char], i: usize, p: &str) -> (b: bool)
    requires
        i <= s@.len(),
    ensures
        b == starts_with(s@.skip(i as int), p@),
{
    let pc = chars_of(p);
    let r = crate::text::occurs_at_exec(s, pc.as_slice(), i);
    proof {
        crate::text::lemma_occurs_skip(s@, p@, i as int);
    }
    r
}

pub(crate) fn push_str(out: &mut Vec<char>, t: &str)
    ensures
        final(out)@ == old(out)@ + t@,
{
    let cs = chars_of(t);
    let mut k: usize = 0;
    let ghost base = out@;
    while k < cs.len()
        invariant
            k <= cs@.len(),
            cs@ == t@,
            out@ == base + cs@.take(k as int),
        decreases cs.len() - k,
    {
        out.push(cs[k]);
        assert(cs@.take(k + 1) =~= cs@.take(k as int).push(cs@[k as int]));
        k = k + 1;
    }
    assert(cs@.take(k as int) =~= cs@);
}

/// Translates a Go time layout (reference time 2006-01-02T15:04:05) into a
/// chrono format; `None` when it has no Go token.
pub fn go_layout_to_chrono(fmt: &str) -> (r: Option<String>)
    ensures
        match r {
            Some(s) => go_layout_spec(fmt@) == Some(s@),
            None => go_layout_spec(fmt@) is None,
        },
{
    let s = chars_of(fmt);
    let mut out: Vec<char> = Vec::new();
    let mut i: usize = 0;
    let mut matched = false;
    assert(s@.skip(0) =~= s@);
    while i < s.len()
        invariant
            i <= s@.len(),
            s@ == fmt@,
            go_layout(fmt@).0 == out@ + go_layout(s@.skip(i as int)).0,
            go_layout(fmt@).1 == (matched || go_layout(s@.skip(i as int)).1),
        decreases s.len() - i,
    {
        let ghost rest = s@.skip(i as int);
        let ghost before = out@;
        proof {
            reveal_strlit("2006");
            reveal_strlit("01");
            reveal_strlit("02");
            reveal_strlit("15");
            reveal_strlit("04");
            reveal_strlit("05");
            assert("2006"@ =~= seq!['2', '0', '0', '6']);
            assert("01"@ =~= seq!['0', '1']);
            assert("02"@ =~= seq!['0', '2']);
            assert("15"@ =~= seq!['1', '5']);
            assert("04"@ =~= seq!['0', '4']);
            assert("05"@ =~= seq!['0', '5']);
        }
        if occurs(s.as_slice(), i, "2006") {
            push_str(&mut out, "%Y");
            assert(rest.skip(4) =~= s@.skip(i + 4));
            i = i + 4;
            matched = true;
        } else if occurs(s.as_slice(), i, "01") {
            push_str(&mut out, "%m");
            assert(rest.skip(2) =~= s@.skip(i + 2));
            i = i + 2;
            matched = true;
        } else if occurs(s.as_slice(), i, "02") {
            push_str(&mut out, "%d");
            assert(rest.skip(2) =~= s@.skip(i + 2));
            i = i + 2;
            matched = true;
        } else if occurs(s.as_slice(), i, "15") {
            push_str(&mut out, "%H");
            assert(rest.skip(2) =~= s@.skip(i + 2));
            i = i + 2;
            matched = true;
        } else if occurs(s.as_slice(), i, "04") {
            push_str(&mut out, "%M");
            assert(rest.skip(2) =~= s@.skip(i + 2));
            i = i + 2;
            matched = true;
        } else if occurs(s.as_slice(), i, "05") {
            push_str(&mut out, "%S");
            assert(rest.skip(2) =~= s@.skip(i + 2));
            i = i + 2;
            matched = true;
        } else {
            out.push(s[i]);
            assert(rest[0] == s@[i as int]);
            assert(rest.skip(1) =~= s@.skip(i + 1));
            i = i + 1;
        }
        assert(out@ + go_layout(s@.skip(i as int)).0 =~= before + go_layout(rest).0);
    }
    assert(s@.skip(i as int) =~= Seq::<char>::empty());
    assert(out@ + Seq::<char>::empty() =~= out@);
    if matched {
        Some(string_of(out.as_slice()))
    } else {
        None
    }
}

// ---------------------------------------------------------------------------
// Epoch seconds of a sample timestamp
// ---------------------------------------------------------------------------

/// `s` without its trailing `Z`s.
pub open spec fn trim_end_z(s: Seq<char>) -> Seq<char>
    decreases s.len(),
{
    if s.len() > 0 && s.last() == 'Z' {
        trim_end_z(s.drop_last())
    } else {
        s
    }
}

fn trim_end_z_exec(s: &str) -> (r: String)
    ensures
        r@ == trim_end_z(s@),
{
    let cs = chars_of(s);
    let mut j: usize = cs.len();
    assert(cs@.take(j as int) =~= cs@);
    while j > 0 && cs[j - 1] == 'Z'
        invariant
            j <= cs@.len(),
            cs@ == s@,
            trim_end_z(s@) == trim_end_z(cs@.take(j as int)),
        decreases j,
    {
        assert(cs@.take(j as int).drop_last() =~= cs@.take(j - 1));
        j = j - 1;
    }
    let mut out: Vec<char> = Vec::new();
    let mut k: usize = 0;
    while k < j
        invariant
            k <= j <= cs@.len(),
            out@ == cs@.take(k as int),
        decreases j - k,
    {
        out.push(cs[k]);
        assert(cs@.take(k + 1) =~= cs@.take(k as int).push(cs@[k as int]));
        k = k + 1;
    }
    string_of(out.as_slice())
}

/// The divisor that turns an epoch in `fmt` units into seconds.
pub open spec fn epoch_divisor(fmt: Seq<char>) -> u64 {
    if fmt == "ms"@ {
        1_000
    } else if fmt == "us"@ {
        1_000_000
    } else if fmt == "ns"@ {
        1_000_000_000
    } else {
        1
    }
}

/// The value as an unsigned integer: a JSON integer, or a string of one.
pub open spec fn raw_epoch(value: JsonV) -> Option<u64> {
    match value {
        JsonV::Number(NumberV::PosInt(n)) => Some(n),
        JsonV::Str(s) => parse_u64(s),
        _ => None,
    }
}

/// A sample timestamp in epoch seconds: an integer (or a string of one)
/// scaled by its unit, or a date-time string read with the Go layout `fmt`
/// (trailing `Z`s ignored on both); `None` when neither applies or the time
/// is before 1970.
pub open spec fn epoch_secs_spec(value: JsonV, fmt: Seq<char>) -> Option<u64> {
    match raw_epoch(value) {
        Some(raw) => Some((raw / epoch_divisor(fmt)) as u64),
        None => match value {
            JsonV::Str(s) => match go_layout_spec(trim_end_z(fmt)) {
                None => None,
                Some(cf) => match datetime_epoch_spec(trim_end_z(s), cf) {
                    None => None,
                    Some(secs) => if secs < 0 {
                        None
                    } else {
                        Some(secs as u64)
                    },
                },
            },
            _ => None,
        },
    }
}

/// Reads a sample timestamp as epoch seconds.
pub fn coerce_to_epoch_secs(value: &Json, fmt: &str) -> (r: Option<u64>)
    ensures
        r == epoch_secs_spec(value@, fmt@),
{
    let raw = match value.as_u64() {
        Some(n) => Some(n),
        None => match value.as_str() {
            Some(s) => {
                let cs = chars_of(s.as_str());
                parse_u64_exec(cs.as_slice())
            },
            None => None,
        },
    };
    match raw {
        Some(raw) => {
            let divisor: u64 = if str_eq(fmt, "ms") {
                1_000
            } else if str_eq(fmt, "us") {
                1_000_000
            } else if str_eq(fmt, "ns") {
                1_000_000_000
            } else {
                1
            };
            Some(raw / divisor)
        },
        None => {
            let s = match value.as_str() {
                Some(s) => s,
                None => return None,
            };
            let f = trim_end_z_exec(fmt);
            let chrono_fmt = match go_layout_to_chrono(f.as_str()) {
                Some(c) => c,
                None => return None,
            };
            let v = trim_end_z_exec(s.as_str());
            let secs = match datetime_epoch(v.as_str(), chrono_fmt.as_str()) {
                Some(x) => x,
                None => return None,
            };
            if secs < 0 {
                return None;
            }
            Some(secs as u64)
        },
    }
}

// ---------------------------------------------------------------------------
// Primary columns and sample data
// ---------------------------------------------------------------------------

/// `value[key]` when `value` has a member `key`.
pub open spec fn member(v: Json, key: Seq<char>) -> Option<Json> {
    v.get_spec(key)
}

/// An output column whose datatype says `primary: true`.
pub open spec fn marked_primary(col: Json) -> bool {
    match col.get_spec("datatype"@) {
        Some(dt) => match dt.get_spec("primary"@) {
            Some(p) => p.bool_spec() == Some(true),
            None => false,
        },
        None => false,
    }
}

/// The primary output columns with a string name that the sample data does
/// not hold (no sample data object at all counts as holding nothing).
pub open spec fn missing_primary(cols: Seq<Json>, sample: Option<Json>) -> Seq<Seq<char>>
    decreases cols.len(),
{
    if cols.len() == 0 {
        Seq::empty()
    } else {
        let rest = missing_primary(cols.drop_last(), sample);
        let c = cols.last();
        if marked_primary(c) && c.get_spec("name"@) is Some && c.get_spec("name"@)->Some_0.str_spec() is Some {
            let n = c.get_spec("name"@)->Some_0.str_spec()->Some_0;
            let held = match sample {
                Some(obj) => obj.get_spec(n) is Some,
                None => false,
            };
            if held {
                rest
            } else {
                rest.push(n)
            }
        } else {
            rest
        }
    }
}

/// The sample data object of a transform's settings, when it is an object.
pub open spec fn sample_object(settings: Json) -> Option<Json> {
    match settings.get_spec("sample_data"@) {
        Some(s) => if s.is_object() {
            Some(s)
        } else {
            None
        },
        None => None,
    }
}

/// The names of primary output columns that the sample data lacks: a row
/// without its primary column is always rejected.
pub open spec fn missing_required_spec(transform: Json) -> Seq<Seq<char>> {
    match transform.get_spec("settings"@) {
        None => Seq::empty(),
        Some(settings) => match settings.get_spec("output_columns"@) {
            Some(c) => match c.array_spec() {
                Some(cols) => missing_primary(cols, sample_object(settings)),
                None => Seq::empty(),
            },
            None => Seq::empty(),
        },
    }
}

/// Names of primary output columns that are absent from the sample data.
pub fn missing_required_fields(transform: &Json) -> (r: Vec<String>)
    ensures
        views(r@) == missing_required_spec(*transform),
{
    let mut r: Vec<String> = Vec::new();
    let settings = match transform.get("settings") {
        Some(s) => s,
        None => {
            assert(views(r@) =~= Seq::<Seq<char>>::empty());
            return r;
        },
    };
    let cols = match settings.get("output_columns") {
        Some(c) => match c.as_array() {
            Some(a) => a,
            None => {
                assert(views(r@) =~= Seq::<Seq<char>>::empty());
                return r;
            },
        },
        None => {
            assert(views(r@) =~= Seq::<Seq<char>>::empty());
            return r;
        },
    };
    let sample: Option<&Json> = match settings.get("sample_data") {
        Some(s) => if s.is_object_exec() {
            Some(s)
        } else {
            None
        },
        None => None,
    };
    let ghost sample_v: Option<Json> = match sample {
        Some(s) => Some(*s),
        None => None,
    };
    assert(sample_v == sample_object(*settings));
    let mut i: usize = 0;
    assert(cols@.take(0) =~= Seq::<Json>::empty());
    assert(views(r@) =~= Seq::<Seq<char>>::empty());
    while i < cols.len()
        invariant
            i <= cols@.len(),
            views(r@) == missing_primary(cols@.take(i as int), sample_v),
            sample_v == match sample {
                Some(s) => Some(*s),
                None => None::<Json>,
            },
        decreases cols.len() - i,
    {
        assert(cols@.take(i + 1).drop_last() =~= cols@.take(i as int));
        assert(cols@.take(i + 1).last() == cols@[i as int]);
        let col = &cols[i];
        let primary = match col.get("datatype") {
            Some(dt) => match dt.get("primary") {
                Some(p) => p.as_bool() == Some(true),
                None => false,
            },
            None => false,
        };
        if primary {
            match col.get("name") {
                Some(nv) => match nv.as_str() {
                    Some(n) => {
                        let held = match sample {
                            Some(obj) => obj.get(n.as_str()).is_some(),
                            None => false,
                        };
                        if !held {
                            let ghost before = views(r@);
                            r.push(n.clone());
                            assert(views(r@) =~= before.push(n@));
                        }
                    },
                    None => {},
                },
                None => {},
            }
        }
        i = i + 1;
    }
    assert(cols@.take(i as int) =~= cols@);
    r
}

/// The type of an output column is a timestamp type.
pub open spec fn is_time_type(dt: Json) -> bool {
    match dt.get_spec("type"@) {
        Some(t) => t.str_spec() == Some("epoch"@) || t.str_spec() == Some("datetime"@),
        None => false,
    }
}

/// What one output column gives as the primary timestamp: its name, its
/// value in the sample data, and its format (`s` when none is given).
pub open spec fn column_timestamp(col: Json, sample: Json) -> Option<(Seq<char>, JsonV, Seq<char>)> {
    match col.get_spec("datatype"@) {
        None => None,
        Some(dt) => if !(is_time_type(dt) && dt.get_spec("primary"@) is Some && dt.get_spec("primary"@)->Some_0.bool_spec() == Some(true)) {
            None
        } else {
            match col.get_spec("name"@) {
                None => None,
                Some(nv) => match nv.str_spec() {
                    None => None,
                    Some(name) => {
                        let format = match dt.get_spec("format"@) {
                            Some(f) => match f.str_spec() {
                                Some(s) => s,
                                None => "s"@,
                            },
                            None => "s"@,
                        };
                        match sample.get_spec(name) {
                            Some(v) => Some((name, v@, format)),
                            None => None,
                        }
                    },
                },
            }
        },
    }
}

/// The first output column that gives a primary timestamp.
pub open spec fn first_column_timestamp(cols: Seq<Json>, sample: Json) -> Option<(Seq<char>, JsonV, Seq<char>)>
    decreases cols.len(),
{
    if cols.len() == 0 {
        None
    } else {
        match column_timestamp(cols[0], sample) {
            Some(t) => Some(t),
            None => first_column_timestamp(cols.skip(1), sample),
        }
    }
}

/// The primary timestamp of a transform's sample data: the first output
/// column of type epoch or datetime marked primary, with a name, whose value
/// the sample data holds.
pub open spec fn primary_timestamp_spec(transform: Json) -> Option<(Seq<char>, JsonV, Seq<char>)> {
    match transform.get_spec("settings"@) {
        None => None,
        Some(settings) => match settings.get_spec("output_columns"@) {
            None => None,
            Some(c) => match c.array_spec() {
                None => None,
                Some(cols) => match settings.get_spec("sample_data"@) {
                    None => None,
                    Some(sample) => first_column_timestamp(cols, sample),
                },
            },
        },
    }
}

fn column_timestamp_exec(col: &Json, sample: &Json) -> (r: Option<(String, Json, String)>)
    ensures
        match r {
            Some(t) => column_timestamp(*col, *sample) == Some((t.0@, t.1@, t.2@)),
            None => column_timestamp(*col, *sample) is None,
        },
{
    let dt = match col.get("datatype") {
        Some(d) => d,
        None => return None,
    };
    let type_match = match dt.get("type") {
        Some(t) => match t.as_str() {
            Some(s) => str_eq(s.as_str(), "epoch") || str_eq(s.as_str(), "datetime"),
            None => false,
        },
        None => false,
    };
    let is_primary = match dt.get("primary") {
        Some(p) => p.as_bool() == Some(true),
        None => false,
    };
    if !(type_match && is_primary) {
        return None;
    }
    let name = match col.get("name") {
        Some(nv) => match nv.as_str() {
            Some(n) => n.clone(),
            None => return None,
        },
        None => return None,
    };
    let format = match dt.get("format") {
        Some(f) => match f.as_str() {
            Some(s) => s.clone(),
            None => "s".to_string(),
        },
        None => "s".to_string(),
    };
    match sample.get(name.as_str()) {
        Some(v) => Some((name, copy_json(v), format)),
        None => None,
    }
}

/// Finds the primary timestamp column of a transform and its sample value.
pub fn primary_timestamp_from_transform(transform: &Json) -> (r: Option<(String, Json, String)>)
    ensures
        match r {
            Some(t) => primary_timestamp_spec(*transform) == Some((t.0@, t.1@, t.2@)),
            None => primary_timestamp_spec(*transform) is None,
        },
{
    let settings = match transform.get("settings") {
        Some(s) => s,
        None => return None,
    };
    let cols = match settings.get("output_columns") {
        Some(c) => match c.as_array() {
            Some(a) => a,
            None => return None,
        },
        None => return None,
    };
    let sample = match settings.get("sample_data") {
        Some(s) => s,
        None => return None,
    };
    let mut i: usize = 0;
    assert(cols@.skip(0) =~= cols@);
    while i < cols.len()
        invariant
            i <= cols@.len(),
            primary_timestamp_spec(*transform) == first_column_timestamp(cols@.skip(i as int), *sample),
        decreases cols.len() - i,
    {
        assert(cols@.skip(i as int)[0] == cols@[i as int]);
        assert(cols@.skip(i as int).skip(1) =~= cols@.skip(i + 1));
        match column_timestamp_exec(&cols[i], sample) {
            Some(t) => {
                return Some(t);
            },
            None => {},
        }
        i = i + 1;
    }
    None
}

// ---------------------------------------------------------------------------
// Diagnosis of an empty table
// ---------------------------------------------------------------------------

/// The query on `system.parts` for the table's parts.
pub open spec fn parts_sql_spec(project: Seq<char>, table: Seq<char>) -> Seq<char> {
    "SELECT count() AS total, sum(active) AS active_count, min(min_time) AS oldest, max(max_time) AS newest FROM system.parts WHERE database = '"@
        + project + "' AND table = '"@ + table + "'"@
}

/// The query on `system.parts` for the table's parts.
pub fn parts_sql(project: &str, table: &str) -> (r: String)
    ensures
        r@ == parts_sql_spec(project@, table@),
{
    let mut r = "SELECT count() AS total, sum(active) AS active_count, min(min_time) AS oldest, max(max_time) AS newest FROM system.parts WHERE database = '".to_string();
    append(&mut r, project);
    append(&mut r, "' AND table = '");
    append(&mut r, table);
    append(&mut r, "'");
    assert(r@ =~= parts_sql_spec(project@, table@));
    r
}

/// The query for the table's three latest ingest errors.
pub open spec fn ingest_errors_sql_spec(project: Seq<char>, table: Seq<char>) -> Seq<char> {
    "SELECT timestamp, error FROM system.ingest_errors WHERE table = '"@ + project + "."@ + table
        + "' ORDER BY timestamp DESC LIMIT 3"@
}

/// The query for the table's three latest ingest errors.
pub fn ingest_errors_sql(project: &str, table: &str) -> (r: String)
    ensures
        r@ == ingest_errors_sql_spec(project@, table@),
{
    let mut r = "SELECT timestamp, error FROM system.ingest_errors WHERE table = '".to_string();
    append(&mut r, project);
    append(&mut r, ".");
    append(&mut r, table);
    append(&mut r, "' ORDER BY timestamp DESC LIMIT 3");
    assert(r@ =~= ingest_errors_sql_spec(project@, table@));
    r
}

/// A primary timestamp that was already too old for the table: the rows
/// expired on arrival.
pub struct StaleTimestamp {
    pub column: String,
    pub value: Json,
    pub age_days: u64,
    pub max_age_days: u64,
}

/// The table's `age.max_age_days`, 1 when it has none.
pub open spec fn max_age_days_spec(table_settings: Json) -> u64 {
    match table_settings.get_spec("age"@) {
        Some(a) => match a.get_spec("max_age_days"@) {
            Some(v) => match v.u64_spec() {
                Some(n) => n,
                None => 1,
            },
            None => 1,
        },
        None => 1,
    }
}

/// The primary timestamp of the sample data, when it is older than the
/// table keeps rows: its column, value, age in whole days and the table's
/// limit.
pub open spec fn stale_spec(transform: Json, table_settings: Json, now_secs: u64) -> Option<(Seq<char>, JsonV, u64, u64)> {
    match primary_timestamp_spec(transform) {
        None => None,
        Some((col, v, fmt)) => match epoch_secs_spec(v, fmt) {
            None => None,
            Some(ts) => {
                let max_age = max_age_days_spec(table_settings);
                if now_secs > ts && (now_secs - ts) / 86_400 > max_age {
                    Some((col, v, ((now_secs - ts) / 86_400) as u64, max_age))
                } else {
                    None
                }
            },
        },
    }
}

/// Finds a primary timestamp that the table had already expired.
pub fn stale_primary_timestamp(transform: &Json, table_settings: &Json, now_secs: u64) -> (r: Option<StaleTimestamp>)
    ensures
        match r {
            Some(st) => stale_spec(*transform, *table_settings, now_secs) == Some((st.column@, st.value@, st.age_days, st.max_age_days)),
            None => stale_spec(*transform, *table_settings, now_secs) is None,
        },
{
    let (col, value, fmt) = match primary_timestamp_from_transform(transform) {
        Some(t) => t,
        None => return None,
    };
    let ts = match coerce_to_epoch_secs(&value, fmt.as_str()) {
        Some(x) => x,
        None => return None,
    };
    let max_age: u64 = match table_settings.get("age") {
        Some(a) => match a.get("max_age_days") {
            Some(v) => match v.as_u64() {
                Some(n) => n,
                None => 1,
            },
            None => 1,
        },
        None => 1,
    };
    if now_secs > ts {
        let age_days = (now_secs - ts) / 86_400;
        if age_days > max_age {
            return Some(StaleTimestamp { column: col, value, age_days, max_age_days: max_age });
        }
    }
    None
}

/// The finding for a stale primary timestamp; `value_text` is the sample
/// value written as JSON.
pub open spec fn stale_message(column: Seq<char>, value_text: Seq<char>, age_days: u64, max_age_days: u64) -> Seq<char> {
    "PRIMARY TIMESTAMP STALE: sample_data."@ + column + " = "@ + value_text + " ("@ + decimal(age_days as nat)
        + " days old), table max_age_days = "@ + decimal(max_age_days as nat) + ". Row was expired on arrival."@
}

/// The finding for a stale primary timestamp.
pub fn stale_finding(st: &StaleTimestamp, value_text: &str) -> (r: String)
    ensures
        r@ == stale_message(st.column@, value_text@, st.age_days, st.max_age_days),
{
    let mut r = "PRIMARY TIMESTAMP STALE: sample_data.".to_string();
    append(&mut r, st.column.as_str());
    append(&mut r, " = ");
    append(&mut r, value_text);
    append(&mut r, " (");
    let a = u64_to_string(st.age_days);
    append(&mut r, a.as_str());
    append(&mut r, " days old), table max_age_days = ");
    let m = u64_to_string(st.max_age_days);
    append(&mut r, m.as_str());
    append(&mut r, ". Row was expired on arrival.");
    assert(r@ =~= stale_message(st.column@, value_text@, st.age_days, st.max_age_days));
    r
}

/// A query answer that adds a finding: the trimmed text when the query
/// succeeded and said something.
pub open spec fn answer_finding(prefix: Seq<char>, answer: Option<Seq<char>>) -> Seq<Seq<char>> {
    match answer {
        Some(a) => if trim(a).len() > 0 {
            seq![prefix + trim(a)]
        } else {
            Seq::empty()
        },
        None => Seq::empty(),
    }
}

/// The findings in order: a stale primary timestamp, primary fields missing
/// from the sample data, the table's parts, its recent ingest errors.
pub open spec fn findings_spec(stale: Option<Seq<char>>, transform: Json, parts: Option<Seq<char>>, ingest_errors: Option<Seq<char>>) -> Seq<Seq<char>> {
    let a = match stale {
        Some(m) => seq![m],
        None => Seq::empty(),
    };
    let missing = missing_required_spec(transform);
    let b = if missing.len() > 0 {
        a.push("sample_data MISSING REQUIRED FIELDS: "@ + debug_strings_spec(missing) + " — transform would reject these rows."@)
    } else {
        a
    };
    b + answer_finding("system.parts: "@, parts) + answer_finding("Recent ingest errors: "@, ingest_errors)
}

/// The diagnosis: the findings one per line, or a note that nothing
/// obvious was found.
pub open spec fn diagnosis_spec(stale: Option<Seq<char>>, transform: Json, parts: Option<Seq<char>>, ingest_errors: Option<Seq<char>>) -> Seq<char> {
    let f = findings_spec(stale, transform, parts, ingest_errors);
    if f.len() == 0 {
        "No obvious cause detected — manual investigation required. Ephemeral --guid project is left alive for debugging."@
    } else {
        join(f, "\n  "@)
    }
}

pub open spec fn opt_view(s: Option<String>) -> Option<Seq<char>> {
    match s {
        Some(x) => Some(x@),
        None => None,
    }
}

fn push_answer(findings: &mut Vec<String>, prefix: &str, answer: &Option<String>)
    ensures
        views(final(findings)@) == views(old(findings)@) + answer_finding(prefix@, opt_view(*answer)),
{
    match answer {
        Some(a) => {
            let t = str_trim(a.as_str());
            if !t.as_str().is_empty() {
                let ghost before = views(findings@);
                findings.push(concat(prefix, t.as_str()));
                assert(views(findings@) =~= before + answer_finding(prefix@, opt_view(*answer)));
            } else {
                assert(views(findings@) =~= views(findings@) + answer_finding(prefix@, opt_view(*answer)));
            }
        },
        None => {
            assert(views(findings@) =~= views(findings@) + answer_finding(prefix@, opt_view(*answer)));
        },
    }
}

/// Assembles the diagnosis of a table that received no rows from the stale
/// timestamp finding, the transform, and the answers of the parts and
/// ingest-error queries (`None` when a query failed).
pub fn diagnose_zero_rows(stale: &Option<String>, transform: &Json, parts: &Option<String>, ingest_errors: &Option<String>) -> (r: String)
    ensures
        r@ == diagnosis_spec(opt_view(*stale), *transform, opt_view(*parts), opt_view(*ingest_errors)),
{
    let mut findings: Vec<String> = Vec::new();
    match stale {
        Some(m) => findings.push(m.clone()),
        None => {},
    }
    let missing = missing_required_fields(transform);
    if missing.len() > 0 {
        let mut m = "sample_data MISSING REQUIRED FIELDS: ".to_string();
        let d = debug_strings(&missing);
        append(&mut m, d.as_str());
        append(&mut m, " — transform would reject these rows.");
        findings.push(m);
    }
    let ghost b = views(findings@);
    assert(b =~= {
        let a = match opt_view(*stale) {
            Some(m) => seq![m],
            None => Seq::empty(),
        };
        if missing_required_spec(*transform).len() > 0 {
            a.push("sample_data MISSING REQUIRED FIELDS: "@ + debug_strings_spec(missing_required_spec(*transform)) + " — transform would reject these rows."@)
        } else {
            a
        }
    });
    push_answer(&mut findings, "system.parts: ", parts);
    push_answer(&mut findings, "Recent ingest errors: ", ingest_errors);
    assert(views(findings@) =~= findings_spec(opt_view(*stale), *transform, opt_view(*parts), opt_view(*ingest_errors)));
    if findings.len() == 0 {
        "No obvious cause detected — manual investigation required. Ephemeral --guid project is left alive for debugging.".to_string()
    } else {
        join_strings(&findings, "\n  ")
    }
}

} // verus!


