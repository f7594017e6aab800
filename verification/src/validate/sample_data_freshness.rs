//! Warnings for sample data whose primary timestamp is more than about six
//! months old. The caller reads each transform file and supplies the time
//! of the run; a transform that cannot be read or has no usable timestamp
//! gives no warning.
use vstd::prelude::*;
use crate::ext::{datetime_epoch, datetime_epoch_spec};
use crate::json::{Json, JsonNumber};
use crate::text::{chars_of, concat, append, str_eq, str_trim, trim, parse_u64, parse_u64_exec, starts_with, string_of, decimal, u64_to_string};
use crate::deploy::verify::{epoch_divisor, occurs, push_str};

verus! {

broadcast use vstd::string::group_string_axioms;

/// About six months (183 days), in seconds.
pub const STALENESS_THRESHOLD_SECS: u64 = 15811200;

/// A Go reference-time layout translated token by token into a strptime
/// format. Fractional seconds (`.000000000` down to `.999`) become `%.f`,
/// `2006` `%Y`, `01` `%m`, `02` `%d`, `15` `%H`, `04` `%M`, `05` `%S`; tokens
/// are tried in that order at each position, and any other character is
/// kept as it is.
pub open spec fn strptime_layout(s: Seq<char>) -> Seq<char>
    decreases s.len(),
{
    if s.len() == 0 {
        Seq::empty()
    } else if starts_with(s, seq!['.', '0', '0', '0', '0', '0', '0', '0', '0', '0']) {
        "%.f"@ + strptime_layout(s.skip(10))
    } else if starts_with(s, seq!['.', '9', '9', '9', '9', '9', '9', '9', '9', '9']) {
        "%.f"@ + strptime_layout(s.skip(10))
    } else if starts_with(s, seq!['.', '0', '0', '0', '0', '0', '0']) {
        "%.f"@ + strptime_layout(s.skip(7))
    } else if starts_with(s, seq!['.', '9', '9', '9', '9', '9', '9']) {
        "%.f"@ + strptime_layout(s.skip(7))
    } else if starts_with(s, seq!['.', '0', '0', '0']) {
        "%.f"@ + strptime_layout(s.skip(4))
    } else if starts_with(s, seq!['.', '9', '9', '9']) {
        "%.f"@ + strptime_layout(s.skip(4))
    } else if starts_with(s, seq!['2', '0', '0', '6']) {
        "%Y"@ + strptime_layout(s.skip(4))
    } else if starts_with(s, seq!['0', '1']) {
        "%m"@ + strptime_layout(s.skip(2))
    } else if starts_with(s, seq!['0', '2']) {
        "%d"@ + strptime_layout(s.skip(2))
    } else if starts_with(s, seq!['1', '5']) {
        "%H"@ + strptime_layout(s.skip(2))
    } else if starts_with(s, seq!['0', '4']) {
        "%M"@ + strptime_layout(s.skip(2))
    } else if starts_with(s, seq!['0', '5']) {
        "%S"@ + strptime_layout(s.skip(2))
    } else {
        seq![s[0]] + strptime_layout(s.skip(1))
    }
}

/// Translates a Go reference-time layout (e.g. `2006-01-02T15:04:05`) into
/// the strptime format that chrono reads (`%Y-%m-%dT%H:%M:%S`).
pub fn translate_go_layout(fmt: &str) -> (r: String)
    ensures
        r@ == strptime_layout(fmt@),
{
    let s = chars_of(fmt);
    let mut out: Vec<char> = Vec::new();
    let mut i: usize = 0;
    assert(s@.skip(0) =~= s@);
    proof {
        reveal_strlit(".000000000");
        reveal_strlit(".999999999");
        reveal_strlit(".000000");
        reveal_strlit(".999999");
        reveal_strlit(".000");
        reveal_strlit(".999");
        reveal_strlit("2006");
        reveal_strlit("01");
        reveal_strlit("02");
        reveal_strlit("15");
        reveal_strlit("04");
        reveal_strlit("05");
        assert(".000000000"@ =~= seq!['.', '0', '0', '0', '0', '0', '0', '0', '0', '0']);
        assert(".999999999"@ =~= seq!['.', '9', '9', '9', '9', '9', '9', '9', '9', '9']);
        assert(".000000"@ =~= seq!['.', '0', '0', '0', '0', '0', '0']);
        assert(".999999"@ =~= seq!['.', '9', '9', '9', '9', '9', '9']);
        assert(".000"@ =~= seq!['.', '0', '0', '0']);
        assert(".999"@ =~= seq!['.', '9', '9', '9']);
        assert("2006"@ =~= seq!['2', '0', '0', '6']);
        assert("01"@ =~= seq!['0', '1']);
        assert("02"@ =~= seq!['0', '2']);
        assert("15"@ =~= seq!['1', '5']);
        assert("04"@ =~= seq!['0', '4']);
        assert("05"@ =~= seq!['0', '5']);
    }
    while i < s.len()
        invariant
            i <= s@.len(),
            s@ == fmt@,
            strptime_layout(fmt@) == out@ + strptime_layout(s@.skip(i as int)),
            ".000000000"@ =~= seq!['.', '0', '0', '0', '0', '0', '0', '0', '0', '0'],
            ".999999999"@ =~= seq!['.', '9', '9', '9', '9', '9', '9', '9', '9', '9'],
            ".000000"@ =~= seq!['.', '0', '0', '0', '0', '0', '0'],
            ".999999"@ =~= seq!['.', '9', '9', '9', '9', '9', '9'],
            ".000"@ =~= seq!['.', '0', '0', '0'],
            ".999"@ =~= seq!['.', '9', '9', '9'],
            "2006"@ =~= seq!['2', '0', '0', '6'],
            "01"@ =~= seq!['0', '1'],
            "02"@ =~= seq!['0', '2'],
            "15"@ =~= seq!['1', '5'],
            "04"@ =~= seq!['0', '4'],
            "05"@ =~= seq!['0', '5'],
        decreases s.len() - i,
    {
        let ghost rest = s@.skip(i as int);
        let ghost before = out@;
        let step: usize;
        if occurs(s.as_slice(), i, ".000000000") {
            push_str(&mut out, "%.f");
            step = 10;
        } else if occurs(s.as_slice(), i, ".999999999") {
            push_str(&mut out, "%.f");
            step = 10;
        } else if occurs(s.as_slice(), i, ".000000") {
            push_str(&mut out, "%.f");
            step = 7;
        } else if occurs(s.as_slice(), i, ".999999") {
            push_str(&mut out, "%.f");
            step = 7;
        } else if occurs(s.as_slice(), i, ".000") {
            push_str(&mut out, "%.f");
            step = 4;
        } else if occurs(s.as_slice(), i, ".999") {
            push_str(&mut out, "%.f");
            step = 4;
        } else if occurs(s.as_slice(), i, "2006") {
            push_str(&mut out, "%Y");
            step = 4;
        } else if occurs(s.as_slice(), i, "01") {
            push_str(&mut out, "%m");
            step = 2;
        } else if occurs(s.as_slice(), i, "02") {
            push_str(&mut out, "%d");
            step = 2;
        } else if occurs(s.as_slice(), i, "15") {
            push_str(&mut out, "%H");
            step = 2;
        } else if occurs(s.as_slice(), i, "04") {
            push_str(&mut out, "%M");
            step = 2;
        } else if occurs(s.as_slice(), i, "05") {
            push_str(&mut out, "%S");
            step = 2;
        } else {
            out.push(s[i]);
            step = 1;
            assert(out@ =~= before + seq![rest[0]]);
        }
        assert(rest.skip(step as int) =~= s@.skip(i + step));
        assert(out@ + strptime_layout(s@.skip(i + step)) =~= before + strptime_layout(rest));
        i = i + step;
    }
    string_of(out.as_slice())
}

/// A column's datatype is an epoch or datetime marked primary.
pub open spec fn is_primary_time(col: Json) -> bool {
    match col.get_spec("datatype"@) {
        Some(dt) => {
            let t = match dt.get_spec("type"@) {
                Some(v) => match v.str_spec() {
                    Some(s) => s,
                    None => Seq::empty(),
                },
                None => Seq::empty(),
            };
            let p = match dt.get_spec("primary"@) {
                Some(v) => match v.bool_spec() {
                    Some(b) => b,
                    None => false,
                },
                None => false,
            };
            (t == "epoch"@ || t == "datetime"@) && p
        },
        None => false,
    }
}

/// The first primary epoch or datetime column.
pub open spec fn first_primary(cols: Seq<Json>, i: int) -> Option<Json>
    decreases cols.len() - i,
{
    if i < 0 || i >= cols.len() {
        None
    } else if is_primary_time(cols[i]) {
        Some(cols[i])
    } else {
        first_primary(cols, i + 1)
    }
}

/// A string member of `v`, or `d` when there is none.
pub open spec fn str_or(v: Json, key: Seq<char>, d: Seq<char>) -> Seq<char> {
    match v.get_spec(key) {
        Some(x) => match x.str_spec() {
            Some(s) => s,
            None => d,
        },
        None => d,
    }
}

/// Whether `v` is present and not `null`.
pub open spec fn non_null(v: Option<Json>) -> bool {
    match v {
        Some(x) => !(x is Null),
        None => false,
    }
}

/// The first JSON pointer of the list that reaches a non-null sample value.
pub open spec fn first_pointer_hit(ptrs: Seq<Json>, sample: Json, i: int) -> Option<Json>
    decreases ptrs.len() - i,
{
    if i < 0 || i >= ptrs.len() {
        None
    } else {
        match ptrs[i].str_spec() {
            Some(p) => match crate::json::pointer_spec(sample, p) {
                Some(v) => if !(v is Null) {
                    Some(v)
                } else {
                    first_pointer_hit(ptrs, sample, i + 1)
                },
                None => first_pointer_hit(ptrs, sample, i + 1),
            },
            None => first_pointer_hit(ptrs, sample, i + 1),
        }
    }
}

/// The sample value of a primary column: under the column's name when that
/// is not null; else the first of its `from_json_pointers` that reaches a
/// non-null value; else its `from_input_field` when that is not null; else
/// whatever is under its name (possibly null). `None` when the column has no
/// string name or nothing is found.
pub open spec fn resolve_primary_spec(col: Json, sample: Json) -> Option<Json> {
    match col.get_spec("name"@) {
        Some(n) => match n.str_spec() {
            Some(name) => {
                let by_name = sample.get_spec(name);
                let source = match col.get_spec("datatype"@) {
                    Some(dt) => dt.get_spec("source"@),
                    None => None,
                };
                let ptrs = match source {
                    Some(s) => match s.get_spec("from_json_pointers"@) {
                        Some(p) => p.array_spec(),
                        None => None,
                    },
                    None => None,
                };
                let fif = match source {
                    Some(s) => match s.get_spec("from_input_field"@) {
                        Some(f) => f.str_spec(),
                        None => None,
                    },
                    None => None,
                };
                if non_null(by_name) {
                    by_name
                } else if ptrs is Some && first_pointer_hit(ptrs->0, sample, 0) is Some {
                    first_pointer_hit(ptrs->0, sample, 0)
                } else if fif is Some && non_null(sample.get_spec(fif->0)) {
                    sample.get_spec(fif->0)
                } else {
                    by_name
                }
            },
            None => None,
        },
        None => None,
    }
}

fn first_pointer_value<'a>(ps: &Vec<Json>, sample_data: &'a Json) -> (r: Option<&'a Json>)
    ensures
        match r {
            Some(v) => first_pointer_hit(ps@, *sample_data, 0) == Some(*v),
            None => first_pointer_hit(ps@, *sample_data, 0) is None,
        },
{
    let mut i: usize = 0;
    while i < ps.len()
        invariant
            i <= ps@.len(),
            first_pointer_hit(ps@, *sample_data, 0) == first_pointer_hit(ps@, *sample_data, i as int),
        decreases ps.len() - i,
    {
        match ps[i].as_str() {
            Some(p) => match sample_data.pointer(p.as_str()) {
                Some(v) => {
                    if !v.is_null() {
                        return Some(v);
                    }
                },
                None => {},
            },
            None => {},
        }
        i = i + 1;
    }
    None
}

fn is_primary_time_exec(col: &Json) -> (b: bool)
    ensures
        b == is_primary_time(*col),
{
    match col.get("datatype") {
        Some(dt) => {
            proof {
                reveal_strlit("");
                assert(""@ =~= Seq::<char>::empty());
            }
            let ty = str_member(dt, "type", "");
            let primary = match dt.get("primary") {
                Some(p) => match p.as_bool() {
                    Some(b) => b,
                    None => false,
                },
                None => false,
            };
            (str_eq(ty, "epoch") || str_eq(ty, "datetime")) && primary
        },
        None => false,
    }
}

fn first_primary_exec(cols: &Vec<Json>) -> (r: Option<usize>)
    ensures
        match r {
            Some(k) => k < cols@.len() && first_primary(cols@, 0) == Some(cols@[k as int]),
            None => first_primary(cols@, 0) is None,
        },
{
    let mut i: usize = 0;
    while i < cols.len()
        invariant
            i <= cols@.len(),
            first_primary(cols@, 0) == first_primary(cols@, i as int),
        decreases cols.len() - i,
    {
        if is_primary_time_exec(&cols[i]) {
            return Some(i);
        }
        i = i + 1;
    }
    None
}

/// Finds the sample value of a primary column.
pub fn resolve_primary_value<'a>(col: &Json, sample_data: &'a Json) -> (r: Option<&'a Json>)
    ensures
        match r {
            Some(v) => resolve_primary_spec(*col, *sample_data) == Some(*v),
            None => resolve_primary_spec(*col, *sample_data) is None,
        },
{
    let name = match col.get("name") {
        Some(n) => match n.as_str() {
            Some(s) => s,
            None => {
                return None;
            },
        },
        None => {
            return None;
        },
    };
    let by_name = sample_data.get(name.as_str());
    match by_name {
        Some(v) => {
            if !v.is_null() {
                return by_name;
            }
        },
        None => {},
    }
    let source = match col.get("datatype") {
        Some(dt) => dt.get("source"),
        None => None,
    };
    let ptrs = match source {
        Some(s) => match s.get("from_json_pointers") {
            Some(p) => p.as_array(),
            None => None,
        },
        None => None,
    };
    match ptrs {
        Some(ps) => {
            match first_pointer_value(ps, sample_data) {
                Some(v) => {
                    return Some(v);
                },
                None => {},
            }
        },
        None => {},
    }
    let fif = match source {
        Some(s) => match s.get("from_input_field") {
            Some(f) => f.as_str(),
            None => None,
        },
        None => None,
    };
    match fif {
        Some(f) => {
            let by_input = sample_data.get(f.as_str());
            match by_input {
                Some(v) => {
                    if !v.is_null() {
                        return by_input;
                    }
                },
                None => {},
            }
        },
        None => {},
    }
    by_name
}

/// The seconds of an epoch sample value before scaling: an unsigned JSON
/// integer as it is, a negative one as 0, a float cut to an unsigned
/// integer, and a string (trimmed) of decimal digits read as a number.
pub open spec fn raw_secs(v: Json) -> Option<u64> {
    match v {
        Json::Number(JsonNumber::PosInt(n)) => Some(n),
        Json::Number(JsonNumber::NegInt(_)) => Some(0),
        Json::Number(JsonNumber::Float { saturated_u64, .. }) => Some(saturated_u64),
        Json::Str(s) => parse_u64(trim(s@)),
        _ => None,
    }
}

/// The epoch seconds of a primary timestamp of type `ty` in format `fmt`:
/// a datetime string read with the translated layout (none before 1970, none
/// without a format), or an epoch scaled by its unit.
pub open spec fn primary_secs_spec(ty: Seq<char>, fmt: Seq<char>, v: Json) -> Option<u64> {
    if ty == "datetime"@ {
        if fmt.len() == 0 {
            None
        } else {
            match v {
                Json::Str(s) => match datetime_epoch_spec(s@, strptime_layout(fmt)) {
                    Some(ts) => if ts < 0 {
                        None
                    } else {
                        Some(ts as u64)
                    },
                    None => None,
                },
                _ => None,
            }
        }
    } else {
        match raw_secs(v) {
            Some(r) => Some((r / epoch_divisor(fmt)) as u64),
            None => None,
        }
    }
}

/// What the check reads of a transform: its primary column's name and
/// timestamp in seconds.
pub open spec fn primary_reading(transform: Json) -> Option<(Seq<char>, u64)> {
    match transform.at("settings"@).at("output_columns"@).array_spec() {
        Some(cols) => match first_primary(cols, 0) {
            Some(col) => {
                let dt = col.at("datatype"@);
                let ty = str_or(dt, "type"@, Seq::empty());
                let fmt = str_or(dt, "format"@, if ty == "datetime"@ { Seq::empty() } else { "s"@ });
                let name = str_or(col, "name"@, Seq::empty());
                match resolve_primary_spec(col, transform.at("settings"@).at("sample_data"@)) {
                    Some(v) => match primary_secs_spec(ty, fmt, v) {
                        Some(secs) => Some((name, secs)),
                        None => None,
                    },
                    None => None,
                }
            },
            None => None,
        },
        None => None,
    }
}

pub open spec fn stale_message(path: Seq<char>, column: Seq<char>, age_days: nat) -> Seq<char> {
    "Stale sample_data in "@ + path + ": primary timestamp '"@ + column + "' is ~"@ + decimal(age_days)
        + " days old (threshold: 183 days)"@
}

/// The warning for a transform at `path` whose primary timestamp is older
/// than the threshold at `now_epoch` seconds; none when it is fresh or
/// cannot be read.
pub open spec fn freshness_warning_spec(transform: Json, path: Seq<char>, now_epoch: u64) -> Option<Seq<char>> {
    match primary_reading(transform) {
        Some((name, secs)) => if now_epoch > secs && now_epoch - secs > STALENESS_THRESHOLD_SECS {
            Some(stale_message(path, name, ((now_epoch - secs) / 86400) as nat))
        } else {
            None
        },
        None => None,
    }
}

fn str_member<'a>(v: &'a Json, key: &str, d: &'a str) -> (r: &'a str)
    ensures
        r@ == str_or(*v, key@, d@),
{
    match v.get(key) {
        Some(x) => match x.as_str() {
            Some(s) => s.as_str(),
            None => d,
        },
        None => d,
    }
}

fn at<'a>(v: &'a Json, key: &str, null: &'a Json) -> (r: &'a Json)
    requires
        *null == Json::Null,
    ensures
        *r == v.at(key@),
{
    match v.get(key) {
        Some(x) => x,
        None => null,
    }
}

fn primary_secs(ty: &str, fmt: &str, v: &Json) -> (r: Option<u64>)
    ensures
        r == primary_secs_spec(ty@, fmt@, *v),
{
    if str_eq(ty, "datetime") {
        if fmt.is_empty() {
            return None;
        }
        match v {
            Json::Str(s) => {
                let layout = translate_go_layout(fmt);
                match datetime_epoch(s.as_str(), layout.as_str()) {
                    Some(ts) => if ts < 0 {
                        None
                    } else {
                        Some(ts as u64)
                    },
                    None => None,
                }
            },
            _ => None,
        }
    } else {
        let raw: Option<u64> = match v {
            Json::Number(JsonNumber::PosInt(n)) => Some(*n),
            Json::Number(JsonNumber::NegInt(_)) => Some(0),
            Json::Number(JsonNumber::Float { saturated_u64, .. }) => Some(*saturated_u64),
            Json::Str(s) => {
                let t = str_trim(s.as_str());
                let cs = chars_of(t.as_str());
                parse_u64_exec(cs.as_slice())
            },
            _ => None,
        };
        match raw {
            Some(r) => {
                let divisor: u64 = if str_eq(fmt, "ms") {
                    1_000
                } else if str_eq(fmt, "us") {
                    1_000_000
                } else if str_eq(fmt, "ns") {
                    1_000_000_000
                } else {
                    1
                };
                Some(r / divisor)
            },
            None => None,
        }
    }
}

/// The staleness warning for one transform, `now_epoch` being the time of
/// the run in seconds.
pub fn freshness_warning(transform: &Json, path: &str, now_epoch: u64) -> (r: Option<String>)
    ensures
        match r {
            Some(w) => freshness_warning_spec(*transform, path@, now_epoch) == Some(w@),
            None => freshness_warning_spec(*transform, path@, now_epoch) is None,
        },
{
    let null = Json::Null;
    let settings = at(transform, "settings", &null);
    let cols = match at(settings, "output_columns", &null).as_array() {
        Some(c) => c,
        None => {
            return None;
        },
    };
    let found = first_primary_exec(cols);
    let col = match found {
        Some(k) => &cols[k],
        None => {
            return None;
        },
    };
    let dt = at(col, "datatype", &null);
    proof {
        reveal_strlit("");
        assert(""@ =~= Seq::<char>::empty());
    }
    let ty = str_member(dt, "type", "");
    let default_format: &str = if str_eq(ty, "datetime") { "" } else { "s" };
    let fmt = str_member(dt, "format", default_format);
    let name = str_member(col, "name", "");
    let sample = at(settings, "sample_data", &null);
    let value = match resolve_primary_value(col, sample) {
        Some(v) => v,
        None => {
            return None;
        },
    };
    let secs = match primary_secs(ty, fmt, value) {
        Some(s) => s,
        None => {
            return None;
        },
    };
    if now_epoch > secs && now_epoch - secs > STALENESS_THRESHOLD_SECS {
        let age_days = (now_epoch - secs) / 86400;
        let mut w = concat("Stale sample_data in ", path);
        append(&mut w, ": primary timestamp '");
        append(&mut w, name);
        append(&mut w, "' is ~");
        append(&mut w, u64_to_string(age_days).as_str());
        append(&mut w, " days old (threshold: 183 days)");
        assert(w@ =~= stale_message(path@, name@, age_days as nat));
        Some(w)
    } else {
        None
    }
}

} // verus!
