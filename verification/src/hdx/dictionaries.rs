//! Bundle dictionaries on the testing cluster: where their files are
//! expected, what an uploaded data file is called, whether it is uploaded
//! already, and the definition that creates a dictionary. The file checks
//! and requests are the caller's.
use vstd::prelude::*;
use crate::ext::{lowercase, lowercase_spec};
use crate::json::{Json, JsonV};
use crate::grafana::datasource::{set_member, with_member};
use crate::text::{chars_of, concat, append, owned, str_eq, ends_with, string_of, last_piece, last_piece_exec};

verus! {

broadcast use vstd::string::group_string_axioms;

/// `s` with every trailing copy of `p` removed (`str::trim_end_matches`).
pub open spec fn trim_end_matches(s: Seq<char>, p: Seq<char>) -> Seq<char>
    decreases s.len(),
{
    if p.len() > 0 && ends_with(s, p) {
        trim_end_matches(s.subrange(0, s.len() - p.len()), p)
    } else {
        s
    }
}

fn trim_end_matches_exec(s: &str, p: &str) -> (r: String)
    requires
        p@.len() > 0,
    ensures
        r@ == trim_end_matches(s@, p@),
{
    let cs = chars_of(s);
    let ps = chars_of(p);
    let mut end: usize = cs.len();
    assert(cs@.subrange(0, end as int) =~= cs@);
    while end >= ps.len() && crate::text::occurs_at_exec(cs.as_slice(), ps.as_slice(), end - ps.len())
        invariant
            end <= cs@.len(),
            cs@ == s@,
            ps@ == p@,
            p@.len() > 0,
            trim_end_matches(s@, p@) == trim_end_matches(cs@.subrange(0, end as int), p@),
        decreases end,
    {
        let ghost cur = cs@.subrange(0, end as int);
        assert(cur.skip(cur.len() - ps@.len()) =~= cs@.subrange(end - ps@.len(), end as int));
        assert(cur.subrange(0, cur.len() - ps@.len()) =~= cs@.subrange(0, end - ps@.len()));
        end = end - ps.len();
    }
    proof {
        let cur = cs@.subrange(0, end as int);
        if end >= ps@.len() {
            assert(cur.skip(cur.len() - ps@.len()) =~= cs@.subrange(end - ps@.len(), end as int));
        }
    }
    let mut out: Vec<char> = Vec::new();
    let mut k: usize = 0;
    while k < end
        invariant
            k <= end <= cs@.len(),
            out@ == cs@.subrange(0, k as int),
        decreases end - k,
    {
        out.push(cs[k]);
        assert(cs@.subrange(0, k + 1) =~= cs@.subrange(0, k as int).push(cs@[k as int]));
        k = k + 1;
    }
    string_of(out.as_slice())
}

/// The name a data file is uploaded under: its file name without trailing
/// `.csv`, then `.yaml`, `.yml` and `.tsv` endings.
pub open spec fn upload_name(file_name: Seq<char>) -> Seq<char> {
    trim_end_matches(trim_end_matches(trim_end_matches(trim_end_matches(file_name, ".csv"@), ".yaml"@), ".yml"@), ".tsv"@)
}

/// The name a data file is uploaded under.
pub fn base_file_name(file_name: &str) -> (r: String)
    ensures
        r@ == upload_name(file_name@),
{
    proof {
        reveal_strlit(".csv");
        reveal_strlit(".yaml");
        reveal_strlit(".yml");
        reveal_strlit(".tsv");
    }
    let a = trim_end_matches_exec(file_name, ".csv");
    let b = trim_end_matches_exec(a.as_str(), ".yaml");
    let c = trim_end_matches_exec(b.as_str(), ".yml");
    trim_end_matches_exec(c.as_str(), ".tsv")
}

/// The file name at the end of a path.
pub fn data_file_name(path: &str) -> (r: String)
    ensures
        r@ == last_piece(path@, '/'),
{
    let cs = chars_of(path);
    let l = last_piece_exec(cs.as_slice(), '/');
    string_of(l.as_slice())
}

/// The MIME type a data file is uploaded with: YAML for a `yaml` or `yml`
/// extension (in any case), CSV otherwise.
pub open spec fn mime_type_spec(file_name: Seq<char>) -> Seq<char> {
    let ext = lowercase_spec(last_piece(file_name, '.'));
    if ext == "yaml"@ || ext == "yml"@ {
        "application/x-yaml"@
    } else {
        "text/csv"@
    }
}

/// The MIME type of a data file.
pub fn mime_type(file_name: &str) -> (r: String)
    ensures
        r@ == mime_type_spec(file_name@),
{
    let cs = chars_of(file_name);
    let piece = last_piece_exec(cs.as_slice(), '.');
    let ext = string_of(piece.as_slice());
    assert(ext@ == last_piece(file_name@, '.'));
    let lower = lowercase(ext.as_str());
    assert(lower@ == lowercase_spec(last_piece(file_name@, '.')));
    if str_eq(lower.as_str(), "yaml") || str_eq(lower.as_str(), "yml") {
        owned("application/x-yaml")
    } else {
        owned("text/csv")
    }
}

/// The name of an entry of a file listing: the entry when it is a string,
/// else its string `name`, else the empty string.
pub open spec fn listed_file_name(entry: Json) -> Seq<char> {
    match entry {
        Json::Str(s) => s@,
        _ => match entry.get_spec("name"@) {
            Some(n) => match n.str_spec() {
                Some(s) => s,
                None => Seq::empty(),
            },
            None => Seq::empty(),
        },
    }
}

/// Whether a listed file is the data file, by its upload name or its file
/// name.
pub open spec fn is_data_file(entry: Json, file_name: Seq<char>, upload: Seq<char>) -> bool {
    listed_file_name(entry) == upload || listed_file_name(entry) == file_name
}

/// Whether a file listing (an array; anything else lists nothing) already
/// holds the data file, under its upload name or its file name.
pub fn file_already_uploaded(listing: &Json, file_name: &str, upload: &str) -> (b: bool)
    ensures
        b == (listing.array_spec() is Some && exists|i: int| 0 <= i < listing.array_spec()->0.len()
            && #[trigger] is_data_file(listing.array_spec()->0[i], file_name@, upload@)),
{
    let items = match listing.as_array() {
        Some(a) => a,
        None => {
            return false;
        },
    };
    proof {
        reveal_strlit("");
        assert(""@ =~= Seq::<char>::empty());
    }
    let mut i: usize = 0;
    while i < items.len()
        invariant
            i <= items@.len(),
            listing.array_spec() == Some(items@),
            forall|j: int| 0 <= j < i ==> !#[trigger] is_data_file(items@[j], file_name@, upload@),
            ""@ =~= Seq::<char>::empty(),
        decreases items.len() - i,
    {
        let entry = &items[i];
        let name: &str = match entry {
            Json::Str(s) => s.as_str(),
            _ => match entry.get("name") {
                Some(n) => match n.as_str() {
                    Some(s) => s.as_str(),
                    None => "",
                },
                None => "",
            },
        };
        assert(name@ == listed_file_name(*entry));
        if str_eq(name, upload) || str_eq(name, file_name) {
            let ghost w = i as int;
            assert(is_data_file(listing.array_spec()->0[w], file_name@, upload@));
            assert(exists|k: int| 0 <= k < listing.array_spec()->0.len()
                && #[trigger] is_data_file(listing.array_spec()->0[k], file_name@, upload@));
            return true;
        }
        i = i + 1;
    }
    false
}

pub open spec fn missing_dictionary_message(name: Seq<char>, base_dir: Seq<char>) -> Seq<char> {
    "Bundle-specific dictionary '"@ + name + "' declared but files not found.\n  Expected:\n    - "@ + base_dir
        + "/dictionaries/"@ + name + ".json (definition)\n    - "@ + base_dir + "/dictionaries/"@ + name
        + ".[csv/yaml/yml/tsv] (data)\n  Actions:\n    1. Add "@ + name
        + ".json + data file to dictionaries/ folder, OR\n    2. Check if files exist in dictionaries.zip, OR\n    3. Remove '"@
        + name + "' from required_dictionaries in bundle.json if not needed"@
}

/// The error for a declared dictionary whose files are in neither place.
pub fn missing_dictionary_files(name: &str, base_dir: &str) -> (r: String)
    ensures
        r@ == missing_dictionary_message(name@, base_dir@),
{
    let mut r = concat("Bundle-specific dictionary '", name);
    append(&mut r, "' declared but files not found.\n  Expected:\n    - ");
    append(&mut r, base_dir);
    append(&mut r, "/dictionaries/");
    append(&mut r, name);
    append(&mut r, ".json (definition)\n    - ");
    append(&mut r, base_dir);
    append(&mut r, "/dictionaries/");
    append(&mut r, name);
    append(&mut r, ".[csv/yaml/yml/tsv] (data)\n  Actions:\n    1. Add ");
    append(&mut r, name);
    append(&mut r, ".json + data file to dictionaries/ folder, OR\n    2. Check if files exist in dictionaries.zip, OR\n    3. Remove '");
    append(&mut r, name);
    append(&mut r, "' from required_dictionaries in bundle.json if not needed");
    assert(r@ =~= missing_dictionary_message(name@, base_dir@));
    r
}

/// The error for a definition without a data file beside it.
pub fn missing_data_file(json_path: &str) -> (r: String)
    ensures
        r@ == "Found "@ + json_path@ + " but no matching data file"@,
{
    let mut r = concat("Found ", json_path);
    append(&mut r, " but no matching data file");
    r
}

/// The directories a dictionary's files are looked for in, in order.
pub fn dictionary_dirs(base_dir: &str) -> (r: Vec<String>)
    ensures
        r@.len() == 2,
        r@[0]@ == base_dir@ + "/dictionaries"@,
        r@[1]@ == base_dir@ + "/dictionaries/.extracted"@,
{
    let mut r: Vec<String> = Vec::new();
    r.push(concat(base_dir, "/dictionaries"));
    r.push(concat(base_dir, "/dictionaries/.extracted"));
    r
}

/// The data file extensions, in the order they are tried.
pub fn data_extensions() -> (r: Vec<&'static str>)
    ensures
        r@.len() == 4,
        r@[0]@ == "csv"@,
        r@[1]@ == "yaml"@,
        r@[2]@ == "yml"@,
        r@[3]@ == "tsv"@,
{
    let mut r: Vec<&'static str> = Vec::new();
    r.push("csv");
    r.push("yaml");
    r.push("yml");
    r.push("tsv");
    r
}

/// The definition sent to create a dictionary: the file's definition with
/// its `name` set to the dictionary's name.
pub fn dictionary_definition(def: Json, name: &str) -> (r: Json)
    ensures
        r@ == with_member(def@, "name"@, JsonV::Str(name@)),
{
    let v = Json::Str(owned(name));
    assert(v@ == JsonV::Str(name@));
    set_member(def, "name", v)
}

} // verus!
