//! The checks on the files that a bundle names: checksums, transform files,
//! the primary dashboard and sample data. The caller reads each file; these
//! functions judge what was read.
use vstd::prelude::*;
use crate::ext::{sha2_hex, sha2_hex_spec};
use crate::json::Json;
use crate::models::bundle::{Bundle, Table, Transform};
use crate::text::{append, concat, contains, is_blank, list_contains, str_contains, str_eq, trim, views};
use crate::validate::raw_logs_timestamp::at;

verus! {

broadcast use vstd::string::group_string_axioms;

/// `base/path`.
pub open spec fn under(base: Seq<char>, path: Seq<char>) -> Seq<char> {
    base + "/"@ + path
}

/// `base/path`.
pub fn path_under(base: &str, path: &str) -> (r: String)
    ensures
        r@ == under(base@, path@),
{
    let head = concat(base, "/");
    let r = concat(head.as_str(), path);
    assert(r@ =~= under(base@, path@));
    r
}

// ---------------------------------------------------------------------------
// Checksums
// ---------------------------------------------------------------------------

/// The lower-case hex SHA-256 of the bytes of `input`.
pub fn generate_sha256(input: &str) -> (r: String)
    ensures
        r@ == sha2_hex_spec(input@),
{
    sha2_hex(input)
}

/// A file's content against its recorded checksum: no checksum, or the
/// checksum of the content.
pub open spec fn checksum_error(file_path: Seq<char>, content: Seq<char>, checksum: Option<Seq<char>>) -> Option<Seq<char>> {
    match checksum {
        None => None,
        Some(c) => if sha2_hex_spec(content) == c {
            None
        } else {
            Some("ERROR: SHA256 "@ + sha2_hex_spec(content) + " does not match for local file "@ + file_path)
        },
    }
}

/// Checks a file's content against its recorded checksum, when there is one.
pub fn check_checksum(file_path: &str, content: &str, checksum: &Option<String>) -> (r: Result<(), String>)
    ensures
        match r {
            Ok(()) => checksum_error(file_path@, content@, crate::models::bundle::opt_view(*checksum)) is None,
            Err(e) => checksum_error(file_path@, content@, crate::models::bundle::opt_view(*checksum)) == Some(e@),
        },
{
    match checksum {
        Some(v) => {
            let sha = generate_sha256(content);
            if !str_eq(sha.as_str(), v.as_str()) {
                let mut e = "ERROR: SHA256 ".to_string();
                append(&mut e, sha.as_str());
                append(&mut e, " does not match for local file ");
                append(&mut e, file_path);
                assert(e@ =~= checksum_error(file_path@, content@, crate::models::bundle::opt_view(*checksum))->Some_0);
                return Err(e);
            }
            Ok(())
        },
        None => Ok(()),
    }
}

/// The error that a failed dashboard checksum is reported with.
pub fn dashboard_checksum_failure(full_path: &str, e: &str) -> (r: String)
    ensures
        r@ == "Failed dashboard checksum: full_path="@ + full_path@ + " error="@ + e@,
{
    let mut r = "Failed dashboard checksum: full_path=".to_string();
    append(&mut r, full_path);
    append(&mut r, " error=");
    append(&mut r, e);
    r
}

/// The error that a failed transform checksum is reported with.
pub fn transform_checksum_failure(full_path: &str, e: &str) -> (r: String)
    ensures
        r@ == "Failed transformation checksum: path="@ + full_path@ + " error="@ + e@,
{
    let mut r = "Failed transformation checksum: path=".to_string();
    append(&mut r, full_path);
    append(&mut r, " error=");
    append(&mut r, e);
    r
}

// ---------------------------------------------------------------------------
// Transform files
// ---------------------------------------------------------------------------

/// What a transform file must hold: a non-blank string `name` not used by an
/// earlier transform of the same table, and no `subtype` but `firehose`.
pub open spec fn transform_json_error(full_path: Seq<char>, doc: Json, seen: Seq<Seq<char>>) -> Result<Seq<char>, Seq<char>> {
    match doc.get_spec("name"@) {
        None => Err("ERROR: Transform file missing required 'name' field: path="@ + full_path),
        Some(n) => match n.str_spec() {
            None => Err("ERROR: Transform file 'name' field is not a string: path="@ + full_path),
            Some(name) => if trim(name).len() == 0 {
                Err("ERROR: Transform file has empty 'name' field: path="@ + full_path)
            } else if seen.contains(name) {
                Err("ERROR: Duplicated transform name '"@ + name + "' path="@ + full_path)
            } else {
                match doc.get_spec("subtype"@) {
                    None => Ok(name),
                    Some(st) => match st.str_spec() {
                        None => Err("ERROR: Transform file 'subtype' field is not a string: path="@ + full_path),
                        Some(sub) => if sub == "firehose"@ {
                            Ok(name)
                        } else {
                            Err("ERROR: Transform file has invalid subtype '"@ + sub + "', must be 'firehose': path="@ + full_path)
                        },
                    },
                }
            },
        },
    }
}

/// Checks a transform file; on success gives its name, which the caller
/// adds to the names seen in the table.
pub fn check_transform_json(full_path: &str, doc: &Json, seen: &Vec<String>) -> (r: Result<String, String>)
    ensures
        match r {
            Ok(n) => transform_json_error(full_path@, *doc, views(seen@)) == Ok::<Seq<char>, Seq<char>>(n@),
            Err(e) => transform_json_error(full_path@, *doc, views(seen@)) == Err::<Seq<char>, Seq<char>>(e@),
        },
{
    let name = match doc.get("name") {
        None => return Err(concat("ERROR: Transform file missing required 'name' field: path=", full_path)),
        Some(n) => match n.as_str() {
            None => return Err(concat("ERROR: Transform file 'name' field is not a string: path=", full_path)),
            Some(s) => s,
        },
    };
    if is_blank(name.as_str()) {
        return Err(concat("ERROR: Transform file has empty 'name' field: path=", full_path));
    }
    if list_contains(seen, name.as_str()) {
        let mut e = "ERROR: Duplicated transform name '".to_string();
        append(&mut e, name.as_str());
        append(&mut e, "' path=");
        append(&mut e, full_path);
        assert(e@ =~= "ERROR: Duplicated transform name '"@ + name@ + "' path="@ + full_path@);
        return Err(e);
    }
    match doc.get("subtype") {
        None => Ok(name.clone()),
        Some(st) => match st.as_str() {
            None => Err(concat("ERROR: Transform file 'subtype' field is not a string: path=", full_path)),
            Some(sub) => {
                if str_eq(sub.as_str(), "firehose") {
                    Ok(name.clone())
                } else {
                    let mut e = "ERROR: Transform file has invalid subtype '".to_string();
                    append(&mut e, sub.as_str());
                    append(&mut e, "', must be 'firehose': path=");
                    append(&mut e, full_path);
                    assert(e@ =~= "ERROR: Transform file has invalid subtype '"@ + sub@ + "', must be 'firehose': path="@ + full_path@);
                    Err(e)
                }
            },
        },
    }
}

// ---------------------------------------------------------------------------
// The primary dashboard
// ---------------------------------------------------------------------------

/// The placeholders that the primary dashboard must hold: its own uid, the
/// datasource, the project, and each table's dashboard variable.
pub open spec fn required_placeholders(b: Bundle) -> Seq<Seq<char>> {
    seq!["__DASHBOARD_UUID__"@, "__DATASOURCE__"@, "__PROJECT_NAME__"@] + b.tables@.map_values(|t: Table| t.dashboard_var@)
}

/// The first placeholder that the dashboard text lacks, as an error.
pub open spec fn first_missing_placeholder(content: Seq<char>, must: Seq<Seq<char>>, full_path: Seq<char>) -> Option<Seq<char>>
    decreases must.len(),
{
    if must.len() == 0 {
        None
    } else if !contains(content, must[0]) {
        Some("ERROR: Dashboard Must have "@ + must[0] + " full_path="@ + full_path)
    } else {
        first_missing_placeholder(content, must.skip(1), full_path)
    }
}

/// Checks that the primary dashboard's text holds every placeholder.
pub fn check_dashboard_placeholders(full_path: &str, content: &str, bundle: &Bundle) -> (r: Result<(), String>)
    ensures
        match r {
            Ok(()) => first_missing_placeholder(content@, required_placeholders(*bundle), full_path@) is None,
            Err(e) => first_missing_placeholder(content@, required_placeholders(*bundle), full_path@) == Some(e@),
        },
{
    let mut must: Vec<String> = Vec::new();
    must.push("__DASHBOARD_UUID__".to_string());
    must.push("__DATASOURCE__".to_string());
    must.push("__PROJECT_NAME__".to_string());
    let mut i: usize = 0;
    while i < bundle.tables.len()
        invariant
            i <= bundle.tables@.len(),
            views(must@) =~= required_placeholders(*bundle).take(i + 3),
        decreases bundle.tables.len() - i,
    {
        let ghost before = views(must@);
        must.push(bundle.tables[i].dashboard_var.clone());
        assert(views(must@) =~= before.push(bundle.tables@[i as int].dashboard_var@));
        assert(required_placeholders(*bundle).take(i + 4) =~= required_placeholders(*bundle).take(i + 3).push(bundle.tables@[i as int].dashboard_var@));
        i = i + 1;
    }
    assert(required_placeholders(*bundle).take(i + 3) =~= required_placeholders(*bundle));
    let ghost all = views(must@);
    let mut k: usize = 0;
    assert(all.skip(0) =~= all);
    while k < must.len()
        invariant
            k <= must@.len(),
            all == views(must@),
            all == required_placeholders(*bundle),
            first_missing_placeholder(content@, all, full_path@) == first_missing_placeholder(content@, all.skip(k as int), full_path@),
        decreases must.len() - k,
    {
        assert(all.skip(k as int)[0] == must@[k as int]@);
        assert(all.skip(k as int).skip(1) =~= all.skip(k + 1));
        if !str_contains(content, must[k].as_str()) {
            let mut e = "ERROR: Dashboard Must have ".to_string();
            append(&mut e, must[k].as_str());
            append(&mut e, " full_path=");
            append(&mut e, full_path);
            return Err(e);
        }
        k = k + 1;
    }
    assert(all.skip(k as int) =~= Seq::<Seq<char>>::empty());
    Ok(())
}

/// What the parsed primary dashboard must be: an object under `dashboard`,
/// and no string `id`.
pub open spec fn dashboard_json_error(full_path: Seq<char>, doc: Json) -> Option<Seq<char>> {
    if !doc.at("dashboard"@).is_object() {
        Some("ERROR: Invalid dashboard - top element must be dashboard.full_path="@ + full_path)
    } else if doc.at("id"@).str_spec() is Some {
        Some("ERROR: Invalid dashboard - cannot had Id set. full_path="@ + full_path)
    } else {
        None
    }
}

/// Checks the shape of the parsed primary dashboard.
pub fn check_dashboard_json(full_path: &str, doc: &Json) -> (r: Result<(), String>)
    ensures
        match r {
            Ok(()) => dashboard_json_error(full_path@, *doc) is None,
            Err(e) => dashboard_json_error(full_path@, *doc) == Some(e@),
        },
{
    if !at(doc, "dashboard").is_object_exec() {
        return Err(concat("ERROR: Invalid dashboard - top element must be dashboard.full_path=", full_path));
    }
    if at(doc, "id").as_str().is_some() {
        return Err(concat("ERROR: Invalid dashboard - cannot had Id set. full_path=", full_path));
    }
    Ok(())
}

// ---------------------------------------------------------------------------
// Sample data
// ---------------------------------------------------------------------------

/// A transform has sample data when `settings.sample_data` is an object or a
/// string.
pub open spec fn sample_present_error(full_path: Seq<char>, doc: Json) -> Option<Seq<char>> {
    let sd = doc.at("settings"@).at("sample_data"@);
    if sd.is_object() || sd.str_spec() is Some {
        None
    } else {
        Some("ERROR: No Sample data in transformation full_path="@ + full_path)
    }
}

/// Checks that a transform carries sample data.
pub fn check_sample_data_present(full_path: &str, doc: &Json) -> (r: Result<(), String>)
    ensures
        match r {
            Ok(()) => sample_present_error(full_path@, *doc) is None,
            Err(e) => sample_present_error(full_path@, *doc) == Some(e@),
        },
{
    let sd = at(at(doc, "settings"), "sample_data");
    if sd.is_object_exec() || sd.as_str().is_some() {
        return Ok(());
    }
    Err(concat("ERROR: No Sample data in transformation full_path=", full_path))
}

/// How a JSON value is named in the sample-data messages.
pub open spec fn describe_spec(v: Json) -> Seq<char> {
    match v {
        Json::Null => "null/missing"@,
        Json::Bool(_) => "a boolean"@,
        Json::Number(_) => "a number"@,
        Json::Str(_) => "a string"@,
        Json::Array(_) => "a JSON array"@,
        Json::Object(_) => "a JSON object"@,
    }
}

/// How a JSON value is named in the sample-data messages.
pub fn describe(v: &Json) -> (r: &'static str)
    ensures
        r@ == describe_spec(*v),
{
    match v {
        Json::Null => "null/missing",
        Json::Bool(_) => "a boolean",
        Json::Number(_) => "a number",
        Json::Str(_) => "a string",
        Json::Array(_) => "a JSON array",
        Json::Object(_) => "a JSON object",
    }
}

/// Deployment needs the sample data of a transform as one non-empty
/// object; a transform without settings or sample data passes.
pub open spec fn sample_shape_error(transform_path: Seq<char>, doc: Json) -> Option<Seq<char>> {
    match doc.get_spec("settings"@) {
        None => None,
        Some(settings) => match settings.get_spec("sample_data"@) {
            None => None,
            Some(sd) => if sd is Array {
                Some("sample_data for transform "@ + transform_path
                    + " is a JSON array; deploy expects a single object. Run scripts/configure_bundle.py to normalize, or manually reduce to sample_data[0]."@)
            } else if sd.is_object() {
                if sd.object_len() == 0 {
                    Some("sample_data for transform "@ + transform_path + " is an empty object; deploy expects a non-empty single object."@)
                } else {
                    None
                }
            } else {
                Some("sample_data for transform "@ + transform_path + " is "@ + describe_spec(sd) + "; deploy expects a single object."@)
            },
        },
    }
}

/// Checks the shape of a transform's sample data.
pub fn check_sample_data_shape(transform_path: &str, doc: &Json) -> (r: Result<(), String>)
    ensures
        match r {
            Ok(()) => sample_shape_error(transform_path@, *doc) is None,
            Err(e) => sample_shape_error(transform_path@, *doc) == Some(e@),
        },
{
    let settings = match doc.get("settings") {
        Some(s) => s,
        None => return Ok(()),
    };
    let sd = match settings.get("sample_data") {
        Some(s) => s,
        None => return Ok(()),
    };
    if sd.is_array() {
        let mut e = "sample_data for transform ".to_string();
        append(&mut e, transform_path);
        append(&mut e, " is a JSON array; deploy expects a single object. Run scripts/configure_bundle.py to normalize, or manually reduce to sample_data[0].");
        return Err(e);
    }
    if sd.is_object_exec() {
        if sd.object_len_exec() == 0 {
            let mut e = "sample_data for transform ".to_string();
            append(&mut e, transform_path);
            append(&mut e, " is an empty object; deploy expects a non-empty single object.");
            return Err(e);
        }
        return Ok(());
    }
    let mut e = "sample_data for transform ".to_string();
    append(&mut e, transform_path);
    append(&mut e, " is ");
    append(&mut e, describe(sd));
    append(&mut e, "; deploy expects a single object.");
    assert(e@ =~= sample_shape_error(transform_path@, *doc)->Some_0);
    Err(e)
}

} // verus!
