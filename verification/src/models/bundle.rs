//! The bundle description (`bundle.json`) and the rules that each of its
//! fields must follow.
use vstd::prelude::*;
use crate::ext::{
    alphanumeric_spec, is_alphanumeric, lowercase, lowercase_spec, url_parse_error,
    url_parse_error_spec,
};
use crate::text::{
    byte_len, chars_of, clone_strings, concat, contains, contains_exec, ends_with,
    ends_with_exec, hex, is_hex, is_one_of, owned, starts_with, starts_with_exec, str_contains,
    str_ends_with, str_starts_with, str_views, string_of, utf8_len,
};

verus! {

broadcast use vstd::string::group_string_axioms;

pub struct Bundle {
    pub name: String,
    pub source: String,
    pub method: String,
    pub method_overrides: Option<MethodOverrides>,
    pub solution: bool,
    pub beta: bool,
    pub base_url: String,
    pub dashboard: Dashboard,
    pub other_dashboards: Option<Vec<Dashboard>>,
    pub tables: Vec<Table>,
    pub summary_tables: Option<Vec<SummaryTable>>,
    pub ui: Ui,
    pub metadata: Metadata,
    pub dependencies: Option<Dependencies>,
    pub alert_rules: Option<AlertRules>,
}

pub struct Dashboard {
    pub path: String,
    pub project_var: String,
    pub sha256: Option<String>,
}

pub struct AlertRules {
    pub path: String,
    pub sha256: Option<String>,
}

pub struct MethodOverrides {
    pub region: Option<String>,
    pub stream_prefix: Option<String>,
}

pub struct Table {
    pub dashboard_var: String,
    pub name: String,
    pub transforms: Vec<Transform>,
}

pub struct SummarySqlFile {
    pub path: String,
    pub sha256: Option<String>,
}

pub struct SummaryTable {
    pub name: String,
    pub parent_table_name: String,
    pub dashboard_var: String,
    pub sql: SummarySqlFile,
}

pub struct Transform {
    pub path: String,
    pub sha256: Option<String>,
    pub sample: Option<String>,
    pub method: Option<String>,
}

pub struct Ui {
    pub primary_url: String,
    pub method: Graphics,
    pub source: Graphics,
    pub data_category: String,
    pub folder: Option<String>,
    pub subfolder: Option<String>,
}

pub struct Graphics {
    pub full_title: String,
    pub icon_url: String,
}

pub struct Metadata {
    pub version: String,
    pub maintainer: String,
    pub description: String,
    pub channel_type: String,
}

pub struct Dependencies {
    pub grafana: Option<GrafanaDependencies>,
    pub hydrolix: Option<HydrolixDependencies>,
    pub data_sources: Option<Vec<DataSource>>,
}

pub struct GrafanaDependencies {
    pub version: Option<String>,
    pub plugins: Option<Vec<GrafanaPlugin>>,
}

pub struct GrafanaPlugin {
    pub name: String,
    pub version: String,
}

pub struct HydrolixDependencies {
    pub cluster_version: Option<String>,
    pub required_dictionaries: Option<Vec<String>>,
    pub required_functions: Option<Vec<String>>,
    pub shared_dictionaries: Option<Vec<String>>,
    pub shared_functions: Option<Vec<String>>,
}

pub struct DataSource {
    pub name: String,
    pub data_source_type: String,
    pub url: String,
    pub access: String,
}

/// The error that a check produced, if any.
pub open spec fn outcome(r: Result<(), String>) -> Option<Seq<char>> {
    match r {
        Ok(_) => None,
        Err(e) => Some(e@),
    }
}

// ---------------------------------------------------------------------------
// Field rules
// ---------------------------------------------------------------------------

/// A URL must parse and use the `https` or `file` scheme.
pub open spec fn https_url_error(s: Seq<char>) -> Option<Seq<char>> {
    match url_parse_error_spec(s) {
        Some(e) => Some("Failed to parse URL: "@ + e),
        None => if starts_with(s, "https://"@) || starts_with(s, "file://"@) {
            None
        } else {
            Some("URL must start with https:// or file://"@)
        },
    }
}

pub fn check_https_url(s: &str) -> (r: Result<(), String>)
    ensures
        outcome(r) == https_url_error(s@),
{
    match url_parse_error(s) {
        Some(e) => return Err(concat("Failed to parse URL: ", e.as_str())),
        None => {},
    }
    if !str_starts_with(s, "https://") && !str_starts_with(s, "file://") {
        return Err("URL must start with https:// or file://".to_string());
    }
    Ok(())
}

pub open spec fn path_escapes(s: Seq<char>) -> bool {
    starts_with(s, "/"@) || contains(s, ".."@)
}

/// A file path inside the bundle: relative, no `..`, and a `.json`, `.tsv` or
/// `.sql` extension in any letter case.
pub open spec fn url_path_error(s: Seq<char>) -> Option<Seq<char>> {
    if path_escapes(s) {
        Some("Path cannot start with slash or contain 2 dots"@)
    } else if !ends_with(lowercase_spec(s), ".json"@) && !ends_with(lowercase_spec(s), ".tsv"@)
        && !ends_with(lowercase_spec(s), ".sql"@) {
        Some("Path must end in .json or .tsv or .sql"@)
    } else {
        None
    }
}

fn escapes(s: &str) -> (b: bool)
    ensures
        b == path_escapes(s@),
{
    str_starts_with(s, "/") || str_contains(s, "..")
}

/// A file path of the bundle is accepted exactly when it is relative (no
/// leading `/`), never climbs (`..`), and ends, in any letter case, in
/// `.json`, `.tsv` or `.sql`.
pub proof fn lemma_url_path_accepts(s: Seq<char>)
    ensures
        url_path_error(s) is None <==> (!starts_with(s, "/"@) && !contains(s, ".."@) && (ends_with(
            lowercase_spec(s),
            ".json"@,
        ) || ends_with(lowercase_spec(s), ".tsv"@) || ends_with(lowercase_spec(s), ".sql"@))),
{
}

pub fn check_url_path(s: &str) -> (r: Result<(), String>)
    ensures
        outcome(r) == url_path_error(s@),
{
    if escapes(s) {
        return Err("Path cannot start with slash or contain 2 dots".to_string());
    }
    let lower = lowercase(s);
    if !str_ends_with(lower.as_str(), ".json") && !str_ends_with(lower.as_str(), ".tsv")
        && !str_ends_with(lower.as_str(), ".sql") {
        return Err("Path must end in .json or .tsv or .sql".to_string());
    }
    Ok(())
}

/// The optional sample path: like a file path, but only `.json` or `.tsv`.
pub open spec fn optional_url_path_error(s: Option<Seq<char>>) -> Option<Seq<char>> {
    match s {
        None => None,
        Some(s) => if path_escapes(s) {
            Some("Path cannot start with slash or contain 2 dots"@)
        } else if !ends_with(lowercase_spec(s), ".json"@) && !ends_with(
            lowercase_spec(s),
            ".tsv"@,
        ) {
            Some("Path must end in .json or .tsv"@)
        } else {
            None
        },
    }
}

pub open spec fn opt_view(s: Option<String>) -> Option<Seq<char>> {
    match s {
        Some(x) => Some(x@),
        None => None,
    }
}

pub fn check_optional_url_path(s: &Option<String>) -> (r: Result<(), String>)
    ensures
        outcome(r) == optional_url_path_error(opt_view(*s)),
{
    match s {
        None => Ok(()),
        Some(s) => {
            if escapes(s.as_str()) {
                return Err("Path cannot start with slash or contain 2 dots".to_string());
            }
            let lower = lowercase(s.as_str());
            if !str_ends_with(lower.as_str(), ".json") && !str_ends_with(lower.as_str(), ".tsv") {
                return Err("Path must end in .json or .tsv".to_string());
            }
            Ok(())
        },
    }
}

/// A path that must end in `.json` (exactly that case).
pub open spec fn ends_in_json_error(s: Seq<char>) -> Option<Seq<char>> {
    if ends_with(s, ".json"@) {
        None
    } else {
        Some(s + " Must end in .json"@)
    }
}

pub fn check_ends_in_json(s: &str) -> (r: Result<(), String>)
    ensures
        outcome(r) == ends_in_json_error(s@),
{
    if str_ends_with(s, ".json") {
        Ok(())
    } else {
        Err(concat(s, " Must end in .json"))
    }
}

pub open spec fn macro_char_ok(c: char) -> bool {
    ('A' <= c && c <= 'Z') || ('1' <= c && c <= '9') || c == '_'
}

/// A `__VARIABLE_NAME__` macro: at least 5 bytes, wrapped in double
/// underscores, and inside only `A`-`Z`, `1`-`9` and single underscores.
pub open spec fn macro_name_error(s: Seq<char>) -> Option<Seq<char>> {
    if utf8_len(s) < 5 || !starts_with(s, "__"@) || !ends_with(s, "__"@) {
        Some(s + " Must be in format __VARIABLE_NAME__"@)
    } else {
        let inner = s.subrange(2, s.len() - 2);
        if inner.len() == 0 {
            Some(s + " Empty inside __VARIABLE_NAME__"@)
        } else if exists|i: int| 0 <= i < inner.len() && !macro_char_ok(inner[i]) {
            Some(s + " Must be upper-case or a numeral __VARIABLE_NAME__"@)
        } else if contains(inner, "__"@) {
            Some(s + " Inside there are no double underscores"@)
        } else {
            None
        }
    }
}

pub fn check_macro_name(s: &str) -> (r: Result<(), String>)
    ensures
        outcome(r) == macro_name_error(s@),
{
    let v = chars_of(s);
    let u = chars_of("__");
    proof {
        reveal_strlit("__");
        assert(u@.len() == 2);
        assert(u@[0] == '_' && u@[1] == '_');
        assert(u@ =~= seq!['_', '_']);
    }
    if v.len() > usize::MAX / 4 {
        // A string this long is far beyond 5 bytes.
        proof {
            crate::text::lemma_utf8_len_bounds(s@);
        }
        if !starts_with_exec(v.as_slice(), u.as_slice()) || !ends_with_exec(v.as_slice(), u.as_slice()) {
            return Err(concat(s, " Must be in format __VARIABLE_NAME__"));
        }
    } else {
        let n = byte_len(v.as_slice());
        if n < 5 || !starts_with_exec(v.as_slice(), u.as_slice()) || !ends_with_exec(v.as_slice(), u.as_slice()) {
            return Err(concat(s, " Must be in format __VARIABLE_NAME__"));
        }
    }
    proof {
        crate::text::lemma_utf8_len_bounds(s@);
    }
    if v.len() < 4 {
        // Both ends hold "__", so fewer than four characters overlap them.
        assert(v@.len() >= 2);
        assert(v@[0] == '_' && v@[1] == '_') by {
            assert(v@.take(2)[0] == u@[0]);
            assert(v@.take(2)[1] == u@[1]);
        }
        assert(v@[v@.len() - 1] == '_' && v@[v@.len() - 2] == '_') by {
            assert(v@.skip(v@.len() - 2)[0] == u@[0]);
            assert(v@.skip(v@.len() - 2)[1] == u@[1]);
        }
        assert(false) by {
            if v@.len() == 2 {
                assert(v@ =~= seq!['_', '_']);
                lemma_two_underscores_len(v@);
            } else {
                assert(v@.len() == 3);
                assert(v@ =~= seq!['_', '_', '_']);
                lemma_three_underscores_len(v@);
            }
        }
    }
    let mut inner: Vec<char> = Vec::new();
    let mut k: usize = 2;
    while k < v.len() - 2
        invariant
            4 <= v.len(),
            2 <= k <= v.len() - 2,
            inner@ == v@.subrange(2, k as int),
            v@ == s@,
        decreases v.len() - 2 - k,
    {
        inner.push(v[k]);
        assert(inner@ =~= v@.subrange(2, k + 1));
        k = k + 1;
    }
    if inner.len() == 0 {
        return Err(concat(s, " Empty inside __VARIABLE_NAME__"));
    }
    assert(inner@ == s@.subrange(2, s@.len() - 2));
    let mut i: usize = 0;
    while i < inner.len()
        invariant
            i <= inner.len(),
            inner@ == s@.subrange(2, s@.len() - 2),
            utf8_len(s@) >= 5,
            starts_with(s@, "__"@),
            ends_with(s@, "__"@),
            forall|j: int| 0 <= j < i ==> macro_char_ok(inner@[j]),
        decreases inner.len() - i,
    {
        let c = inner[i];
        if !(('A' <= c && c <= 'Z') || ('1' <= c && c <= '9') || c == '_') {
            assert(!macro_char_ok(inner@[i as int]));
            return Err(concat(s, " Must be upper-case or a numeral __VARIABLE_NAME__"));
        }
        i = i + 1;
    }
    if contains_exec(inner.as_slice(), u.as_slice()) {
        return Err(concat(s, " Inside there are no double underscores"));
    }
    Ok(())
}

proof fn lemma_two_underscores_len(s: Seq<char>)
    requires
        s == seq!['_', '_'],
    ensures
        utf8_len(s) == 2,
{
    assert(('_' as u32) < 0x80);
    assert(s.drop_last() =~= seq!['_']);
    assert(s.drop_last().drop_last() =~= Seq::<char>::empty());
    reveal_with_fuel(utf8_len, 3);
}

proof fn lemma_three_underscores_len(s: Seq<char>)
    requires
        s == seq!['_', '_', '_'],
    ensures
        utf8_len(s) == 3,
{
    assert(('_' as u32) < 0x80);
    assert(s.drop_last() =~= seq!['_', '_']);
    lemma_two_underscores_len(s.drop_last());
}

pub open spec fn valid_methods() -> Seq<Seq<char>> {
    seq![
        "firehose"@,
        "s3"@,
        "kinesis"@,
        "lambda"@,
        "http_streaming"@,
        "http"@,
        "multi_stream"@,
    ]
}

pub open spec fn method_error(s: Seq<char>) -> Option<Seq<char>> {
    if valid_methods().contains(s) {
        None
    } else {
        Some(s + " is an invalid method"@)
    }
}

/// The delivery methods are exactly `firehose`, `s3`, `kinesis`, `lambda`,
/// `http_streaming`, `http` and `multi_stream`.
pub proof fn lemma_methods(s: Seq<char>)
    ensures
        method_error(s) is None <==> (s == "firehose"@ || s == "s3"@ || s == "kinesis"@ || s == "lambda"@ || s
            == "http_streaming"@ || s == "http"@ || s == "multi_stream"@),
{
    let v = valid_methods();
    if s == "firehose"@ {
        assert(v[0] == s);
    } else if s == "s3"@ {
        assert(v[1] == s);
    } else if s == "kinesis"@ {
        assert(v[2] == s);
    } else if s == "lambda"@ {
        assert(v[3] == s);
    } else if s == "http_streaming"@ {
        assert(v[4] == s);
    } else if s == "http"@ {
        assert(v[5] == s);
    } else if s == "multi_stream"@ {
        assert(v[6] == s);
    }
}

pub fn check_method(s: &str) -> (r: Result<(), String>)
    ensures
        outcome(r) == method_error(s@),
{
    let opts: [&str; 7] = ["firehose", "s3", "kinesis", "lambda", "http_streaming", "http", "multi_stream"];
    assert(str_views(opts@) =~= valid_methods());
    if is_one_of(s, &opts) {
        Ok(())
    } else {
        Err(concat(s, " is an invalid method"))
    }
}

pub open spec fn valid_channel_types() -> Seq<Seq<char>> {
    seq!["AWS"@, "Azure"@, "GCP"@, "3rdParty"@, "Internal"@]
}

pub open spec fn channel_type_error(s: Seq<char>) -> Option<Seq<char>> {
    if valid_channel_types().contains(s) {
        None
    } else {
        Some(s + " is an invalid channel_type"@)
    }
}

pub fn check_channel_type(s: &str) -> (r: Result<(), String>)
    ensures
        outcome(r) == channel_type_error(s@),
{
    let opts: [&str; 5] = ["AWS", "Azure", "GCP", "3rdParty", "Internal"];
    assert(str_views(opts@) =~= valid_channel_types());
    if is_one_of(s, &opts) {
        Ok(())
    } else {
        Err(concat(s, " is an invalid channel_type"))
    }
}

pub open spec fn valid_data_categories() -> Seq<Seq<char>> {
    seq!["video"@, "cdn"@, "security"@]
}

pub open spec fn data_category_error(s: Seq<char>) -> Option<Seq<char>> {
    if valid_data_categories().contains(s) {
        None
    } else {
        Some(s + " is an invalid data category"@)
    }
}

pub fn check_data_category(s: &str) -> (r: Result<(), String>)
    ensures
        outcome(r) == data_category_error(s@),
{
    let opts: [&str; 3] = ["video", "cdn", "security"];
    assert(str_views(opts@) =~= valid_data_categories());
    if is_one_of(s, &opts) {
        Ok(())
    } else {
        Err(concat(s, " is an invalid data category"))
    }
}

pub open spec fn valid_folders() -> Seq<Seq<char>> {
    seq!["api-context"@, "cdn"@, "dns"@, "media"@, "security"@]
}

pub open spec fn folder_error(s: Option<Seq<char>>) -> Option<Seq<char>> {
    match s {
        None => None,
        Some(s) => if valid_folders().contains(s) {
            None
        } else {
            Some(s + " is an invalid folder"@)
        },
    }
}

pub fn check_folder(s: &Option<String>) -> (r: Result<(), String>)
    ensures
        outcome(r) == folder_error(opt_view(*s)),
{
    match s {
        None => Ok(()),
        Some(s) => {
            let opts: [&str; 5] = ["api-context", "cdn", "dns", "media", "security"];
            assert(str_views(opts@) =~= valid_folders());
            if is_one_of(s.as_str(), &opts) {
                Ok(())
            } else {
                Err(concat(s.as_str(), " is an invalid folder"))
            }
        },
    }
}

pub open spec fn valid_subfolders() -> Seq<Seq<char>> {
    seq!["multi-cdn"@, "bots"@, "ds2"@, "siem"@]
}

pub open spec fn subfolder_error(s: Option<Seq<char>>) -> Option<Seq<char>> {
    match s {
        None => None,
        Some(s) => if valid_subfolders().contains(s) {
            None
        } else {
            Some(s + " is an invalid subfolder"@)
        },
    }
}

pub fn check_subfolder(s: &Option<String>) -> (r: Result<(), String>)
    ensures
        outcome(r) == subfolder_error(opt_view(*s)),
{
    match s {
        None => Ok(()),
        Some(s) => {
            let opts: [&str; 4] = ["multi-cdn", "bots", "ds2", "siem"];
            assert(str_views(opts@) =~= valid_subfolders());
            if is_one_of(s.as_str(), &opts) {
                Ok(())
            } else {
                Err(concat(s.as_str(), " is an invalid subfolder"))
            }
        },
    }
}

/// Only (Unicode) alphanumeric characters, dashes and underscores.
pub open spec fn identifier_chars_ok(s: Seq<char>) -> bool {
    forall|i: int| 0 <= i < s.len() ==> alphanumeric_spec(#[trigger] s[i]) || s[i] == '-' || s[i] == '_'
}

fn identifier_chars(s: &str) -> (b: bool)
    ensures
        b == identifier_chars_ok(s@),
{
    let v = chars_of(s);
    let mut i: usize = 0;
    while i < v.len()
        invariant
            i <= v.len(),
            v@ == s@,
            forall|j: int| 0 <= j < i ==> alphanumeric_spec(#[trigger] s@[j]) || s@[j] == '-' || s@[j] == '_',
        decreases v.len() - i,
    {
        let c = v[i];
        if !is_alphanumeric(c) && c != '-' && c != '_' {
            return false;
        }
        i = i + 1;
    }
    true
}

pub open spec fn source_error(s: Seq<char>) -> Option<Seq<char>> {
    if identifier_chars_ok(s) {
        None
    } else {
        Some(s + " contains invalid characters (only alphanumeric, dashes, and underscores allowed)"@)
    }
}

pub fn check_source(s: &str) -> (r: Result<(), String>)
    ensures
        outcome(r) == source_error(s@),
{
    if identifier_chars(s) {
        Ok(())
    } else {
        Err(concat(s, " contains invalid characters (only alphanumeric, dashes, and underscores allowed)"))
    }
}

pub open spec fn name_error(s: Seq<char>) -> Option<Seq<char>> {
    if identifier_chars_ok(s) {
        None
    } else {
        Some(s + " contains invalid characters (only alphanumeric characters, underscores, and dashes allowed)"@)
    }
}

pub fn check_name(s: &str) -> (r: Result<(), String>)
    ensures
        outcome(r) == name_error(s@),
{
    if identifier_chars(s) {
        Ok(())
    } else {
        Err(concat(s, " contains invalid characters (only alphanumeric characters, underscores, and dashes allowed)"))
    }
}

/// An optional SHA-256: 64 bytes long, all hexadecimal digits.
pub open spec fn sha256_error(s: Option<Seq<char>>) -> Option<Seq<char>> {
    match s {
        None => None,
        Some(s) => if utf8_len(s) != 64 {
            Some(s + " needs to be 64 characters long"@)
        } else if exists|i: int| 0 <= i < s.len() && !is_hex(s[i]) {
            Some(s + " must contain only hexadecimal characters"@)
        } else {
            None
        },
    }
}

pub fn check_sha256(s: &Option<String>) -> (r: Result<(), String>)
    ensures
        outcome(r) == sha256_error(opt_view(*s)),
{
    match s {
        None => Ok(()),
        Some(h) => {
            let v = chars_of(h.as_str());
            proof {
                crate::text::lemma_utf8_len_bounds(h@);
            }
            if v.len() > 64 {
                return Err(concat(h.as_str(), " needs to be 64 characters long"));
            }
            let n = byte_len(v.as_slice());
            if n != 64 {
                return Err(concat(h.as_str(), " needs to be 64 characters long"));
            }
            let mut i: usize = 0;
            while i < v.len()
                invariant
                    i <= v.len(),
                    v@ == h@,
                    utf8_len(h@) == 64,
                    opt_view(*s) == Some(h@),
                    forall|j: int| 0 <= j < i ==> is_hex(h@[j]),
                decreases v.len() - i,
            {
                if !hex(v[i]) {
                    assert(!is_hex(h@[i as int]));
                    return Err(concat(h.as_str(), " must contain only hexadecimal characters"));
                }
                i = i + 1;
            }
            Ok(())
        },
    }
}

// ---------------------------------------------------------------------------
// Whole-bundle field check
// ---------------------------------------------------------------------------

/// The first field rule, in field order, that the bundle breaks.
pub open spec fn dashboard_error(d: Dashboard) -> Option<Seq<char>> {
    match url_path_error(d.path@) {
        Some(e) => Some(e),
        None => sha256_error(opt_view(d.sha256)),
    }
}

pub fn check_dashboard(d: &Dashboard) -> (r: Result<(), String>)
    ensures
        outcome(r) == dashboard_error(*d),
{
    check_url_path(d.path.as_str())?;
    check_sha256(&d.sha256)
}

pub open spec fn transform_error(t: Transform) -> Option<Seq<char>> {
    match url_path_error(t.path@) {
        Some(e) => Some(e),
        None => match sha256_error(opt_view(t.sha256)) {
            Some(e) => Some(e),
            None => optional_url_path_error(opt_view(t.sample)),
        },
    }
}

pub fn check_transform(t: &Transform) -> (r: Result<(), String>)
    ensures
        outcome(r) == transform_error(*t),
{
    check_url_path(t.path.as_str())?;
    check_sha256(&t.sha256)?;
    check_optional_url_path(&t.sample)
}

pub open spec fn first_transform_error(ts: Seq<Transform>) -> Option<Seq<char>>
    decreases ts.len(),
{
    if ts.len() == 0 {
        None
    } else {
        match transform_error(ts[0]) {
            Some(e) => Some(e),
            None => first_transform_error(ts.skip(1)),
        }
    }
}

pub open spec fn table_error(t: Table) -> Option<Seq<char>> {
    match macro_name_error(t.dashboard_var@) {
        Some(e) => Some(e),
        None => first_transform_error(t.transforms@),
    }
}

pub fn check_table(t: &Table) -> (r: Result<(), String>)
    ensures
        outcome(r) == table_error(*t),
{
    check_macro_name(t.dashboard_var.as_str())?;
    let mut i: usize = 0;
    assert(t.transforms@.skip(0) =~= t.transforms@);
    while i < t.transforms.len()
        invariant
            i <= t.transforms@.len(),
            macro_name_error(t.dashboard_var@) is None,
            first_transform_error(t.transforms@) == first_transform_error(t.transforms@.skip(i as int)),
        decreases t.transforms.len() - i,
    {
        assert(t.transforms@.skip(i as int).skip(1) =~= t.transforms@.skip(i + 1));
        check_transform(&t.transforms[i])?;
        i = i + 1;
    }
    Ok(())
}


/// The first of two possible errors.
pub open spec fn either(a: Option<Seq<char>>, b: Option<Seq<char>>) -> Option<Seq<char>> {
    match a {
        Some(e) => Some(e),
        None => b,
    }
}

/// The first error that `f` finds among `items`, in order.
pub open spec fn first_error<T>(items: Seq<T>, f: spec_fn(T) -> Option<Seq<char>>) -> Option<Seq<char>>
    decreases items.len(),
{
    if items.len() == 0 {
        None
    } else {
        either(f(items[0]), first_error(items.skip(1), f))
    }
}

pub proof fn lemma_first_error_step<T>(items: Seq<T>, f: spec_fn(T) -> Option<Seq<char>>, i: int)
    requires
        0 <= i < items.len(),
    ensures
        first_error(items.skip(i), f) == either(f(items[i]), first_error(items.skip(i + 1), f)),
{
    assert(items.skip(i)[0] == items[i]);
    assert(items.skip(i).skip(1) =~= items.skip(i + 1));
}

pub open spec fn summary_table_error(t: SummaryTable) -> Option<Seq<char>> {
    either(
        macro_name_error(t.dashboard_var@),
        either(url_path_error(t.sql.path@), sha256_error(opt_view(t.sql.sha256))),
    )
}

pub fn check_summary_table(t: &SummaryTable) -> (r: Result<(), String>)
    ensures
        outcome(r) == summary_table_error(*t),
{
    check_macro_name(t.dashboard_var.as_str())?;
    check_url_path(t.sql.path.as_str())?;
    check_sha256(&t.sql.sha256)
}

pub open spec fn ui_error(u: Ui) -> Option<Seq<char>> {
    either(
        https_url_error(u.primary_url@),
        either(
            https_url_error(u.method.icon_url@),
            either(
                https_url_error(u.source.icon_url@),
                either(
                    data_category_error(u.data_category@),
                    either(folder_error(opt_view(u.folder)), subfolder_error(opt_view(u.subfolder))),
                ),
            ),
        ),
    )
}

pub fn check_ui(u: &Ui) -> (r: Result<(), String>)
    ensures
        outcome(r) == ui_error(*u),
{
    check_https_url(u.primary_url.as_str())?;
    check_https_url(u.method.icon_url.as_str())?;
    check_https_url(u.source.icon_url.as_str())?;
    check_data_category(u.data_category.as_str())?;
    check_folder(&u.folder)?;
    check_subfolder(&u.subfolder)
}

pub open spec fn alert_rules_field_error(a: Option<AlertRules>) -> Option<Seq<char>> {
    match a {
        None => None,
        Some(a) => either(url_path_error(a.path@), sha256_error(opt_view(a.sha256))),
    }
}

pub open spec fn dashboards_error(ds: Option<Vec<Dashboard>>) -> Option<Seq<char>> {
    match ds {
        None => None,
        Some(v) => first_error(v@, |d: Dashboard| dashboard_error(d)),
    }
}

pub open spec fn summary_tables_error(ts: Option<Vec<SummaryTable>>) -> Option<Seq<char>> {
    match ts {
        None => None,
        Some(v) => first_error(v@, |t: SummaryTable| summary_table_error(t)),
    }
}

impl Bundle {
    /// The first field rule that the bundle breaks, field by field in the
    /// order of the struct.
    pub open spec fn fields_error(self) -> Option<Seq<char>> {
        either(name_error(self.name@),
        either(source_error(self.source@),
        either(method_error(self.method@),
        either(https_url_error(self.base_url@),
        either(dashboard_error(self.dashboard),
        either(dashboards_error(self.other_dashboards),
        either(first_error(self.tables@, |t: Table| table_error(t)),
        either(summary_tables_error(self.summary_tables),
        either(ui_error(self.ui),
        either(channel_type_error(self.metadata.channel_type@),
        alert_rules_field_error(self.alert_rules)))))))))))
    }

    /// Applies the rules of every field (those that reading `bundle.json`
    /// enforces) and returns the first broken one.
    #[verifier::loop_isolation(false)]
    pub fn check_fields(&self) -> (r: Result<(), String>)
        ensures
            outcome(r) == self.fields_error(),
    {
        check_name(self.name.as_str())?;
        check_source(self.source.as_str())?;
        check_method(self.method.as_str())?;
        check_https_url(self.base_url.as_str())?;
        check_dashboard(&self.dashboard)?;
        match &self.other_dashboards {
            None => {},
            Some(v) => {
                let ghost f = |d: Dashboard| dashboard_error(d);
                let mut i: usize = 0;
                assert(v@.skip(0) =~= v@);
                while i < v.len()
                    invariant
                        i <= v@.len(),
                        first_error(v@, f) == first_error(v@.skip(i as int), f),
                        f == (|d: Dashboard| dashboard_error(d)),
                    decreases v.len() - i,
                {
                    proof {
                        lemma_first_error_step(v@, f, i as int);
                    }
                    check_dashboard(&v[i])?;
                    i = i + 1;
                }
            },
        }
        let ghost ft = |t: Table| table_error(t);
        let mut i: usize = 0;
        assert(self.tables@.skip(0) =~= self.tables@);
        while i < self.tables.len()
            invariant
                i <= self.tables@.len(),
                first_error(self.tables@, ft) == first_error(self.tables@.skip(i as int), ft),
                ft == (|t: Table| table_error(t)),
            decreases self.tables.len() - i,
        {
            proof {
                lemma_first_error_step(self.tables@, ft, i as int);
            }
            check_table(&self.tables[i])?;
            i = i + 1;
        }
        match &self.summary_tables {
            None => {},
            Some(v) => {
                let ghost f = |t: SummaryTable| summary_table_error(t);
                let mut i: usize = 0;
                assert(v@.skip(0) =~= v@);
                while i < v.len()
                    invariant
                        i <= v@.len(),
                        first_error(v@, f) == first_error(v@.skip(i as int), f),
                        f == (|t: SummaryTable| summary_table_error(t)),
                    decreases v.len() - i,
                {
                    proof {
                        lemma_first_error_step(v@, f, i as int);
                    }
                    check_summary_table(&v[i])?;
                    i = i + 1;
                }
            },
        }
        check_ui(&self.ui)?;
        check_channel_type(self.metadata.channel_type.as_str())?;
        match &self.alert_rules {
            None => Ok(()),
            Some(a) => {
                check_url_path(a.path.as_str())?;
                check_sha256(&a.sha256)
            },
        }
    }
}

impl Bundle {
    /// Functions the bundle depends on: its own, then the shared ones.
    pub open spec fn functions_spec(self) -> (Seq<String>, Seq<String>) {
        match self.dependencies {
            Some(d) => match d.hydrolix {
                Some(h) => (
                    match h.required_functions {
                        Some(v) => v@,
                        None => Seq::empty(),
                    },
                    match h.shared_functions {
                        Some(v) => v@,
                        None => Seq::empty(),
                    },
                ),
                None => (Seq::empty(), Seq::empty()),
            },
            None => (Seq::empty(), Seq::empty()),
        }
    }

    /// Dictionaries the bundle depends on: its own, then the shared ones.
    pub open spec fn dictionaries_spec(self) -> (Seq<String>, Seq<String>) {
        match self.dependencies {
            Some(d) => match d.hydrolix {
                Some(h) => (
                    match h.required_dictionaries {
                        Some(v) => v@,
                        None => Seq::empty(),
                    },
                    match h.shared_dictionaries {
                        Some(v) => v@,
                        None => Seq::empty(),
                    },
                ),
                None => (Seq::empty(), Seq::empty()),
            },
            None => (Seq::empty(), Seq::empty()),
        }
    }

    /// Get all functions categorized by type (bundle-specific vs shared).
    pub fn get_all_functions(&self) -> (r: (Vec<String>, Vec<String>))
        ensures
            (r.0@, r.1@) == self.functions_spec(),
    {
        match &self.dependencies {
            Some(d) => match &d.hydrolix {
                Some(h) => {
                    let a = match &h.required_functions {
                        Some(v) => clone_strings(v),
                        None => Vec::new(),
                    };
                    let b = match &h.shared_functions {
                        Some(v) => clone_strings(v),
                        None => Vec::new(),
                    };
                    (a, b)
                },
                None => (Vec::new(), Vec::new()),
            },
            None => (Vec::new(), Vec::new()),
        }
    }

    /// Get all dictionaries categorized by type (bundle-specific vs shared).
    pub fn get_all_dictionaries(&self) -> (r: (Vec<String>, Vec<String>))
        ensures
            (r.0@, r.1@) == self.dictionaries_spec(),
    {
        match &self.dependencies {
            Some(d) => match &d.hydrolix {
                Some(h) => {
                    let a = match &h.required_dictionaries {
                        Some(v) => clone_strings(v),
                        None => Vec::new(),
                    };
                    let b = match &h.shared_dictionaries {
                        Some(v) => clone_strings(v),
                        None => Vec::new(),
                    };
                    (a, b)
                },
                None => (Vec::new(), Vec::new()),
            },
            None => (Vec::new(), Vec::new()),
        }
    }
}

} // verus!
